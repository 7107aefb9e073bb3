//! The endpoint's routing of incoming datagrams to connections, and its checks on connection
//! attempts.
use rand::Rng;
use vstd::prelude::*;

use crate::byte_map::ByteMap;
use crate::coding::{be16, put_slice, put_u16, put_u32};
use crate::crypto::{interpret_version, spec_version_known, HmacKey, UnsupportedVersion};
use crate::coding::be32;
use crate::packet::{
    spec_decode_header, spec_header_dst_cid, spec_header_space, spec_packet_len, DecodeErrorView,
    FixedLengthConnectionIdParser, HeaderView, LongType, PacketDecodeError, PartialDecode,
    ProtectedInitialHeader, SpaceId,
};
use crate::shared::{spec_encode_long, ConnectionId, EcnCodepoint, IssuedCid, SocketAddr, MAX_CID_SIZE};
use crate::token::{ResetToken, RESET_TOKEN_SIZE};
use crate::config::{ClientConfig, TransportConfig};
use crate::connection::ConnectionError;
use crate::transport_error::{Code, Error as TransportError};
use crate::transport_parameters::{
    PreferredAddress, PreferredAddressView, SocketAddrV4, SocketAddrV6, TransportParameters,
    TransportParametersView,
};
use crate::cid_generator::random_bytes;
use crate::spaces::random_in_range;
use crate::{Side, MIN_INITIAL_SIZE};

verus! {

/// Internal identifier for a `Connection` currently associated with an endpoint
#[derive(Debug, Copy, Clone, PartialEq, Eq, Structural, Hash)]
pub struct ConnectionHandle(pub usize);

/// Errors in the parameters being used to create a new connection
///
/// These arise before any I/O has been performed.
#[derive(Debug, Clone, PartialEq, Eq)]
pub enum ConnectError {
    /// The local endpoint does not support the QUIC version specified in the client
    /// configuration
    UnsupportedVersion,
    /// The given server name was malformed
    InvalidServerName(String),
}

impl From<UnsupportedVersion> for ConnectError {
    fn from(e: UnsupportedVersion) -> (r: ConnectError) {
        ConnectError::UnsupportedVersion
    }
}

impl vstd::std_specs::convert::FromSpecImpl<UnsupportedVersion> for ConnectError {
    open spec fn obeys_from_spec() -> bool {
        true
    }

    open spec fn from_spec(e: UnsupportedVersion) -> ConnectError {
        ConnectError::UnsupportedVersion
    }
}

/// An IP address
#[derive(Debug, Copy, Clone)]
pub enum IpAddr {
    /// IPv4
    V4([u8; 4]),
    /// IPv6
    V6([u8; 16]),
}

/// Identifies a connection by the combination of remote and local addresses
#[derive(Debug, Copy, Clone)]
pub struct FourTuple {
    /// The remote address
    pub remote: SocketAddr,
    /// The local IP address, if known
    pub local_ip: Option<IpAddr>,
}

/// Bytes that identify a socket address: its family, address bytes and port
pub open spec fn spec_addr_key(a: SocketAddr) -> Seq<u8> {
    match a {
        SocketAddr::V4(x) => seq![4u8] + x.ip@ + be16(x.port),
        SocketAddr::V6(x) => seq![6u8] + x.ip@ + be16(x.port),
    }
}

/// Bytes that identify an optional IP address
pub open spec fn spec_ip_key(ip: Option<IpAddr>) -> Seq<u8> {
    match ip {
        None => seq![0u8],
        Some(IpAddr::V4(b)) => seq![4u8] + b@,
        Some(IpAddr::V6(b)) => seq![6u8] + b@,
    }
}

/// Bytes that identify a four-tuple
pub open spec fn spec_four_tuple_key(t: FourTuple) -> Seq<u8> {
    spec_addr_key(t.remote) + spec_ip_key(t.local_ip)
}

/// The bytes that identify `a`
pub fn addr_key(a: &SocketAddr) -> (r: Vec<u8>)
    ensures
        r@ == spec_addr_key(*a),
{
    let mut v: Vec<u8> = Vec::new();
    match a {
        SocketAddr::V4(x) => {
            v.push(4u8);
            put_slice(&mut v, x.ip.as_slice());
            put_u16(&mut v, x.port);
        },
        SocketAddr::V6(x) => {
            v.push(6u8);
            put_slice(&mut v, x.ip.as_slice());
            put_u16(&mut v, x.port);
        },
    }
    assert(v@ =~= spec_addr_key(*a));
    v
}

/// The bytes that identify `t`
pub fn four_tuple_key(t: &FourTuple) -> (r: Vec<u8>)
    ensures
        r@ == spec_four_tuple_key(*t),
{
    let mut v = addr_key(&t.remote);
    let ghost a = v@;
    match &t.local_ip {
        None => {
            v.push(0u8);
        },
        Some(IpAddr::V4(b)) => {
            v.push(4u8);
            put_slice(&mut v, b.as_slice());
        },
        Some(IpAddr::V6(b)) => {
            v.push(6u8);
            put_slice(&mut v, b.as_slice());
        },
    }
    assert(v@ =~= spec_four_tuple_key(*t));
    v
}

/// Part of protocol state incoming datagrams can be routed to
#[derive(Debug, Copy, Clone, PartialEq, Eq, Structural)]
pub enum RouteDatagramTo {
    /// A pending incoming connection, by the index of its buffer
    Incoming(usize),
    /// An established connection
    Connection(ConnectionHandle),
}

/// Reset tokens which are associated with peer socket addresses
pub struct ResetTokenTable {
    map: ByteMap<ConnectionHandle>,
}

impl ResetTokenTable {
    /// The connection registered for each pair of remote address key and token
    pub closed spec fn spec_map(&self) -> Map<Seq<u8>, ConnectionHandle> {
        self.map.spec_map()
    }

    /// No tokens
    pub fn new() -> (r: ResetTokenTable)
        ensures
            r.spec_map() == Map::<Seq<u8>, ConnectionHandle>::empty(),
    {
        ResetTokenTable { map: ByteMap::new() }
    }

    /// The connection registered for `remote` and `token`, if `token` is a reset token of the
    /// right length
    pub fn get(&self, remote: &SocketAddr, token: &[u8]) -> (r: Option<ConnectionHandle>)
        ensures
            r == if token@.len() == RESET_TOKEN_SIZE && self.spec_map().contains_key(
                spec_addr_key(*remote) + token@,
            ) {
                Some(self.spec_map()[spec_addr_key(*remote) + token@])
            } else {
                None::<ConnectionHandle>
            },
    {
        if token.len() != RESET_TOKEN_SIZE {
            return None;
        }
        let mut key = addr_key(remote);
        put_slice(&mut key, token);
        self.map.get(key.as_slice())
    }

    /// Forget the token `token` of `remote`
    pub fn remove(&mut self, remote: &SocketAddr, token: &ResetToken)
        ensures
            final(self).spec_map() == old(self).spec_map().remove(spec_addr_key(*remote) + token@),
    {
        let mut key = addr_key(remote);
        token.encode(&mut key);
        self.map.remove(key.as_slice());
    }

    /// Register `ch` for `remote` and `token`; returns whether something was registered before
    pub fn insert(&mut self, remote: &SocketAddr, token: &ResetToken, ch: ConnectionHandle) -> (r:
        bool)
        ensures
            final(self).spec_map() == old(self).spec_map().insert(
                spec_addr_key(*remote) + token@,
                ch,
            ),
            r == old(self).spec_map().contains_key(spec_addr_key(*remote) + token@),
    {
        let mut key = addr_key(remote);
        token.encode(&mut key);
        self.map.insert(key, ch).is_some()
    }
}

/// Maps packets to existing connections
pub struct ConnectionIndex {
    /// Identifies connections based on locally created CIDs
    connection_ids: ByteMap<ConnectionHandle>,
    /// Identifies incoming connections with zero-length CIDs
    incoming_connection_remotes: ByteMap<ConnectionHandle>,
    /// Identifies outgoing connections with zero-length CIDs
    outgoing_connection_remotes: ByteMap<ConnectionHandle>,
    /// Identifies connections based on the initial DCID the peer utilized
    connection_ids_initial: ByteMap<RouteDatagramTo>,
    /// Reset tokens provided by the peer for the CID each connection is currently sending to
    connection_reset_tokens: ResetTokenTable,
}

/// Abstract value of a connection index
pub struct IndexView {
    /// Connections by local CID
    pub ids: Map<Seq<u8>, ConnectionHandle>,
    /// Incoming connections with zero-length CIDs, by four-tuple key
    pub incoming: Map<Seq<u8>, ConnectionHandle>,
    /// Outgoing connections with zero-length CIDs, by remote address key
    pub outgoing: Map<Seq<u8>, ConnectionHandle>,
    /// Routes by initial destination CID
    pub initial: Map<Seq<u8>, RouteDatagramTo>,
    /// Connections by remote address key followed by reset token
    pub reset_tokens: Map<Seq<u8>, ConnectionHandle>,
}

/// Where a datagram whose first packet has header `h` and bytes `data`, received on
/// `addresses`, is routed: by its destination CID if that names a connection; for Initial and
/// 0-RTT packets by the initial destination CID; for zero-length CIDs by the addresses; and
/// otherwise by a stateless reset token in its last 16 bytes
pub open spec fn spec_route(
    idx: IndexView,
    addresses: FourTuple,
    h: HeaderView,
    data: Seq<u8>,
) -> Option<RouteDatagramTo> {
    let cid = spec_header_dst_cid(h);
    let initial_or_0rtt = spec_header_space(h) == Some(SpaceId::Initial) || (h matches HeaderView::Long {
        ty,
        ..
    } && ty == LongType::ZeroRtt);
    if cid.len() != 0 && idx.ids.contains_key(cid) {
        Some(RouteDatagramTo::Connection(idx.ids[cid]))
    } else if initial_or_0rtt && idx.initial.contains_key(cid) {
        Some(idx.initial[cid])
    } else if cid.len() == 0 && idx.incoming.contains_key(spec_four_tuple_key(addresses)) {
        Some(RouteDatagramTo::Connection(idx.incoming[spec_four_tuple_key(addresses)]))
    } else if cid.len() == 0 && idx.outgoing.contains_key(spec_addr_key(addresses.remote)) {
        Some(RouteDatagramTo::Connection(idx.outgoing[spec_addr_key(addresses.remote)]))
    } else if data.len() < RESET_TOKEN_SIZE {
        None
    } else {
        let key = spec_addr_key(addresses.remote) + data.subrange(
            data.len() - RESET_TOKEN_SIZE,
            data.len() as int,
        );
        if idx.reset_tokens.contains_key(key) {
            Some(RouteDatagramTo::Connection(idx.reset_tokens[key]))
        } else {
            None
        }
    }
}

/// Routing by CID: a packet whose destination CID is a local CID of a connection goes to that
/// connection; otherwise an Initial or 0-RTT packet whose destination CID is a registered
/// initial destination CID goes where that CID is routed, whatever its other fields; a
/// short-header packet is never routed by the initial CIDs
pub proof fn lemma_route_by_cid(idx: IndexView, addresses: FourTuple, h: HeaderView, data: Seq<u8>)
    ensures
        ({
            let cid = spec_header_dst_cid(h);
            let local = cid.len() != 0 && idx.ids.contains_key(cid);
            let zero_rtt = h matches HeaderView::Long { ty, .. } && ty == LongType::ZeroRtt;
            let handshake = h matches HeaderView::Long { ty, .. } && ty == LongType::Handshake;
            let no_initial = IndexView { initial: Map::empty(), ..idx };
            &&& local ==> spec_route(idx, addresses, h, data) == Some(
                RouteDatagramTo::Connection(idx.ids[cid]),
            )
            &&& (h is Initial || zero_rtt) && !local && idx.initial.contains_key(cid)
                ==> spec_route(idx, addresses, h, data) == Some(idx.initial[cid])
            &&& (h is Short || handshake) && cid.len() != 0 && !local ==> spec_route(
                idx,
                addresses,
                h,
                data,
            ) == spec_route(no_initial, addresses, h, data)
        }),
{
}

/// Connection metadata the index refers to when a connection goes away
pub struct ConnectionMeta {
    /// The initial destination CID
    pub init_cid: ConnectionId,
    /// Number of local connection IDs that have been issued in NEW_CONNECTION_ID frames.
    pub cids_issued: u64,
    /// Local connection IDs, with their sequence numbers
    pub loc_cids: Vec<(u64, ConnectionId)>,
    /// Remote/local addresses the connection began with
    pub addresses: FourTuple,
    /// Reset token provided by the peer for the CID we're currently sending to, and the address
    /// being sent to
    pub reset_token: Option<(SocketAddr, ResetToken)>,
}

/// Number of occupied slots of a connection table
pub open spec fn spec_count_known(s: Seq<Option<ConnectionMeta>>) -> nat
    decreases s.len(),
{
    if s.len() == 0 {
        0
    } else {
        spec_count_known(s.drop_last()) + if s.last() is Some {
            1nat
        } else {
            0nat
        }
    }
}

/// Number of pending incoming connections, of the buffer totals by slot
pub open spec fn spec_count_pending(s: Seq<Option<u64>>) -> nat
    decreases s.len(),
{
    if s.len() == 0 {
        0
    } else {
        spec_count_pending(s.drop_last()) + if s.last() is Some {
            1nat
        } else {
            0nat
        }
    }
}

impl ConnectionIndex {
    /// Abstract value
    pub closed spec fn spec_view(&self) -> IndexView {
        IndexView {
            ids: self.connection_ids.spec_map(),
            incoming: self.incoming_connection_remotes.spec_map(),
            outgoing: self.outgoing_connection_remotes.spec_map(),
            initial: self.connection_ids_initial.spec_map(),
            reset_tokens: self.connection_reset_tokens.spec_map(),
        }
    }

    /// An empty index
    pub fn new() -> (r: ConnectionIndex)
        ensures
            r.spec_view().ids == Map::<Seq<u8>, ConnectionHandle>::empty(),
            r.spec_view().incoming == Map::<Seq<u8>, ConnectionHandle>::empty(),
            r.spec_view().outgoing == Map::<Seq<u8>, ConnectionHandle>::empty(),
            r.spec_view().initial == Map::<Seq<u8>, RouteDatagramTo>::empty(),
            r.spec_view().reset_tokens == Map::<Seq<u8>, ConnectionHandle>::empty(),
    {
        ConnectionIndex {
            connection_ids: ByteMap::new(),
            incoming_connection_remotes: ByteMap::new(),
            outgoing_connection_remotes: ByteMap::new(),
            connection_ids_initial: ByteMap::new(),
            connection_reset_tokens: ResetTokenTable::new(),
        }
    }

    /// Number of connections known by local CID
    pub fn connection_ids_len(&self) -> (r: usize)
        ensures
            r == self.spec_view().ids.dom().len(),
    {
        self.connection_ids.len()
    }

    /// Associate a connection with its first locally-chosen destination CID if used, or
    /// otherwise its current 4-tuple (servers) or remote address (clients)
    pub fn insert_conn(
        &mut self,
        addresses: &FourTuple,
        dst_cid: &ConnectionId,
        connection: ConnectionHandle,
        side: Side,
    )
        ensures
            dst_cid@.len() != 0 ==> final(self).spec_view() == (IndexView {
                ids: old(self).spec_view().ids.insert(dst_cid@, connection),
                ..old(self).spec_view()
            }),
            dst_cid@.len() == 0 && side == Side::Server ==> final(self).spec_view() == (IndexView {
                incoming: old(self).spec_view().incoming.insert(
                    spec_four_tuple_key(*addresses),
                    connection,
                ),
                ..old(self).spec_view()
            }),
            dst_cid@.len() == 0 && side == Side::Client ==> final(self).spec_view() == (IndexView {
                outgoing: old(self).spec_view().outgoing.insert(
                    spec_addr_key(addresses.remote),
                    connection,
                ),
                ..old(self).spec_view()
            }),
    {
        if dst_cid.len() == 0 {
            match side {
                Side::Server => {
                    self.incoming_connection_remotes.insert(four_tuple_key(addresses), connection);
                },
                Side::Client => {
                    self.outgoing_connection_remotes.insert(addr_key(&addresses.remote), connection);
                },
            }
        } else {
            self.connection_ids.insert(dst_cid.to_vec(), connection);
        }
    }

    /// Find the existing connection that a datagram should be routed to, if any
    pub fn get(&self, addresses: &FourTuple, datagram: &PartialDecode) -> (r: Option<RouteDatagramTo>)
        ensures
            r == spec_route(self.spec_view(), *addresses, datagram.spec_header(), datagram.spec_data()),
    {
        let cid = datagram.dst_cid().to_vec();
        if cid.len() != 0 {
            match self.connection_ids.get(cid.as_slice()) {
                Some(ch) => {
                    return Some(RouteDatagramTo::Connection(ch));
                },
                None => {},
            }
        }
        if datagram.is_initial() || datagram.is_0rtt() {
            match self.connection_ids_initial.get(cid.as_slice()) {
                Some(route) => {
                    return Some(route);
                },
                None => {},
            }
        }
        if cid.len() == 0 {
            match self.incoming_connection_remotes.get(four_tuple_key(addresses).as_slice()) {
                Some(ch) => {
                    return Some(RouteDatagramTo::Connection(ch));
                },
                None => {},
            }
            match self.outgoing_connection_remotes.get(addr_key(&addresses.remote).as_slice()) {
                Some(ch) => {
                    return Some(RouteDatagramTo::Connection(ch));
                },
                None => {},
            }
        }
        let data = datagram.data();
        if data.len() < RESET_TOKEN_SIZE {
            return None;
        }
        let tail = &data[data.len() - RESET_TOKEN_SIZE..data.len()];
        match self.connection_reset_tokens.get(&addresses.remote, tail) {
            Some(ch) => Some(RouteDatagramTo::Connection(ch)),
            None => None,
        }
    }

    /// Associate an incoming connection with its initial destination CID
    pub fn insert_initial_incoming(&mut self, dst_cid: &ConnectionId, incoming_key: usize)
        ensures
            final(self).spec_view() == (IndexView {
                initial: old(self).spec_view().initial.insert(
                    dst_cid@,
                    RouteDatagramTo::Incoming(incoming_key),
                ),
                ..old(self).spec_view()
            }),
    {
        self.connection_ids_initial.insert(dst_cid.to_vec(), RouteDatagramTo::Incoming(incoming_key));
    }

    /// Remove an association with an initial destination CID
    pub fn remove_initial(&mut self, dst_cid: &ConnectionId)
        ensures
            final(self).spec_view() == (IndexView {
                initial: old(self).spec_view().initial.remove(dst_cid@),
                ..old(self).spec_view()
            }),
    {
        self.connection_ids_initial.remove(dst_cid.to_vec().as_slice());
    }

    /// Associate a connection with its initial destination CID
    pub fn insert_initial(&mut self, dst_cid: &ConnectionId, connection: ConnectionHandle)
        ensures
            final(self).spec_view() == (IndexView {
                initial: old(self).spec_view().initial.insert(
                    dst_cid@,
                    RouteDatagramTo::Connection(connection),
                ),
                ..old(self).spec_view()
            }),
    {
        self.connection_ids_initial.insert(dst_cid.to_vec(), RouteDatagramTo::Connection(connection));
    }

    /// Discard a connection ID
    pub fn retire(&mut self, dst_cid: &ConnectionId)
        ensures
            final(self).spec_view() == (IndexView {
                ids: old(self).spec_view().ids.remove(dst_cid@),
                ..old(self).spec_view()
            }),
    {
        self.connection_ids.remove(dst_cid.to_vec().as_slice());
    }

    /// Remove all references to a connection: its initial CID, its local CIDs, its addresses and
    /// its reset token
    pub fn remove(&mut self, conn: &ConnectionMeta)
        ensures
            final(self).spec_view().initial == if conn.init_cid@.len() > 0 {
                old(self).spec_view().initial.remove(conn.init_cid@)
            } else {
                old(self).spec_view().initial
            },
            forall|k: Seq<u8>| #[trigger]
                final(self).spec_view().ids.contains_key(k) == (old(self).spec_view().ids.contains_key(k)
                    && forall|i: int| 0 <= i < conn.loc_cids@.len() ==> #[trigger] conn.loc_cids@[i].1@ != k),
            forall|k: Seq<u8>| #[trigger]
                final(self).spec_view().ids.contains_key(k) ==> final(self).spec_view().ids[k] == old(
                    self,
                ).spec_view().ids[k],
            final(self).spec_view().incoming == old(self).spec_view().incoming.remove(
                spec_four_tuple_key(conn.addresses),
            ),
            final(self).spec_view().outgoing == old(self).spec_view().outgoing.remove(
                spec_addr_key(conn.addresses.remote),
            ),
            final(self).spec_view().reset_tokens == match conn.reset_token {
                Some((remote, token)) => old(self).spec_view().reset_tokens.remove(
                    spec_addr_key(remote) + token@,
                ),
                None => old(self).spec_view().reset_tokens,
            },
    {
        if conn.init_cid.len() > 0 {
            self.connection_ids_initial.remove(conn.init_cid.to_vec().as_slice());
        }
        let ghost ids0 = self.connection_ids.spec_map();
        let ghost mid = self.spec_view();
        let mut i: usize = 0;
        while i < conn.loc_cids.len()
            invariant
                i <= conn.loc_cids@.len(),
                self.spec_view().initial == mid.initial,
                self.spec_view().incoming == mid.incoming,
                self.spec_view().outgoing == mid.outgoing,
                self.spec_view().reset_tokens == mid.reset_tokens,
                forall|k: Seq<u8>| #[trigger]
                    self.connection_ids.spec_map().contains_key(k) == (ids0.contains_key(k)
                        && forall|j: int| 0 <= j < i ==> #[trigger] conn.loc_cids@[j].1@ != k),
                forall|k: Seq<u8>| #[trigger]
                    self.connection_ids.spec_map().contains_key(k) ==> self.connection_ids.spec_map()[k]
                        == ids0[k],
            decreases conn.loc_cids@.len() - i,
        {
            let cid = conn.loc_cids[i].1;
            self.connection_ids.remove(cid.to_vec().as_slice());
            i = i + 1;
            proof {
                assert forall|k: Seq<u8>| #[trigger]
                    self.connection_ids.spec_map().contains_key(k) == (ids0.contains_key(k)
                        && forall|j: int| 0 <= j < i ==> #[trigger] conn.loc_cids@[j].1@ != k) by {
                    if k != cid@ && !self.connection_ids.spec_map().contains_key(k) && ids0.contains_key(k) {
                        let j = choose|j: int| 0 <= j < i - 1 && #[trigger] conn.loc_cids@[j].1@ == k;
                        assert(conn.loc_cids@[j].1@ == k);
                    }
                    if self.connection_ids.spec_map().contains_key(k) {
                        assert(k != cid@);
                        assert(conn.loc_cids@[i - 1].1@ != k);
                    }
                }
            }
        }
        self.incoming_connection_remotes.remove(four_tuple_key(&conn.addresses).as_slice());
        self.outgoing_connection_remotes.remove(addr_key(&conn.addresses.remote).as_slice());
        match &conn.reset_token {
            Some((remote, token)) => {
                self.connection_reset_tokens.remove(remote, token);
            },
            None => {},
        }
    }
}

/// Number of distinct local connection IDs of `cid_len` bytes, for lengths of one to four
pub open spec fn spec_cid_space(cid_len: nat) -> int {
    if cid_len == 1 {
        0x100
    } else if cid_len == 2 {
        0x1_0000
    } else if cid_len == 3 {
        0x100_0000
    } else {
        0x1_0000_0000
    }
}

/// Whether 3/4 of the space of local connection IDs of length `cid_len` is used up by `n_ids`
/// identifiers; only checked for lengths of one to four bytes
pub open spec fn spec_cids_exhausted(cid_len: nat, n_ids: nat) -> bool {
    cid_len <= 4 && cid_len != 0 && spec_cid_space(cid_len) - n_ids < spec_cid_space(cid_len) / 4
}

/// Whether we've used up 3/4 of the available CID space
///
/// Some space is left unused so that generating a new CID can be relied upon to finish quickly.
/// Lengths over 4 bytes are not checked: 2^40 connections is a lot.
pub fn cids_exhausted(cid_len: usize, n_ids: usize) -> (r: bool)
    ensures
        r == spec_cids_exhausted(cid_len as nat, n_ids as nat),
{
    if cid_len > 4 || cid_len == 0 {
        return false;
    }
    let space: u64 = if cid_len == 1 {
        0x100
    } else if cid_len == 2 {
        0x1_0000
    } else if cid_len == 3 {
        0x100_0000
    } else {
        0x1_0000_0000
    };
    n_ids as u64 > space - space / 4
}

/// Whether a datagram of `len` bytes fits in an incoming connection's buffer holding
/// `buffer_total` bytes, and in the buffers of all incoming connections holding `all_total`
pub open spec fn spec_incoming_admits(
    buffer_total: u64,
    all_total: u64,
    len: u64,
    limits: ServerLimits,
) -> bool {
    &&& buffer_total + len <= u64::MAX
    &&& buffer_total + len <= limits.incoming_buffer_size
    &&& all_total + len <= u64::MAX
    &&& all_total + len <= limits.incoming_buffer_size_total
}

/// Limits a server puts on connection attempts and on the data buffered for them
#[derive(Debug, Copy, Clone, PartialEq, Eq, Structural)]
pub struct ServerLimits {
    /// Maximum number of bytes buffered for one incoming connection
    pub incoming_buffer_size: u64,
    /// Maximum number of bytes buffered for all incoming connections together
    pub incoming_buffer_size_total: u64,
    /// Maximum number of incoming connections waiting to be accepted
    pub max_incoming: usize,
}

/// Check if a connection attempt should be refused regardless of the packet's contents: when
/// connection IDs are exhausted or too many attempts wait, it is refused; an initial destination
/// CID shorter than 8 bytes is a protocol violation unless there is no token or the CID has the
/// length of the local CIDs
pub fn early_validate_first_packet(
    exhausted: bool,
    n_incoming: usize,
    max_incoming: usize,
    dst_cid_len: usize,
    token_empty: bool,
    local_cid_len: usize,
) -> (r: Result<(), TransportError>)
    ensures
        exhausted || n_incoming >= max_incoming ==> r is Err && r->Err_0.code
            == Code::CONNECTION_REFUSED() && r->Err_0.reason@ == ""@ && r->Err_0.frame is None,
        !(exhausted || n_incoming >= max_incoming) && dst_cid_len < 8 && !token_empty
            && dst_cid_len != local_cid_len ==> r is Err && r->Err_0.code
            == Code::PROTOCOL_VIOLATION() && r->Err_0.reason@ == "invalid destination CID length"@
            && r->Err_0.frame is None,
        !(exhausted || n_incoming >= max_incoming) && !(dst_cid_len < 8 && !token_empty
            && dst_cid_len != local_cid_len) ==> r is Ok,
{
    if exhausted || n_incoming >= max_incoming {
        return Err(TransportError::CONNECTION_REFUSED(""));
    }
    if dst_cid_len < 8 && (!token_empty && dst_cid_len != local_cid_len) {
        return Err(TransportError::PROTOCOL_VIOLATION("invalid destination CID length"));
    }
    Ok(())
}

/// The big-endian bytes of each version in turn
pub open spec fn spec_be32_all(vs: Seq<u32>) -> Seq<u8>
    decreases vs.len(),
{
    if vs.len() == 0 {
        Seq::empty()
    } else {
        spec_be32_all(vs.drop_last()) + be32(vs.last())
    }
}

/// The reserved version a version negotiation packet advertises to keep peers from relying on
/// the version list: 0x0a1a2a3a, or 0x0a1a2a4a if that is the version the peer used
pub open spec fn spec_grease_version(version: u32) -> u32 {
    if version != 0x0a1a_2a3a {
        0x0a1a_2a3a
    } else {
        0x0a1a_2a4a
    }
}

/// A version negotiation packet answering a packet of version `version` from `peer_src` to
/// `peer_dst`: a long header with version zero, the peer's source CID as destination and its
/// destination CID as source, a reserved version and the supported versions
pub open spec fn spec_version_negotiation(
    random: u8,
    peer_src: Seq<u8>,
    peer_dst: Seq<u8>,
    version: u32,
    versions: Seq<u32>,
) -> Seq<u8> {
    seq![0x80u8 | (random | 0x40u8)] + be32(0) + spec_encode_long(peer_src) + spec_encode_long(
        peer_dst,
    ) + be32(spec_grease_version(version)) + spec_be32_all(versions)
}

/// Append a version negotiation packet to `buf`
pub fn write_version_negotiation(
    random: u8,
    peer_src: &ConnectionId,
    peer_dst: &ConnectionId,
    version: u32,
    versions: &[u32],
    buf: &mut Vec<u8>,
)
    ensures
        final(buf)@ == old(buf)@ + spec_version_negotiation(
            random,
            peer_src@,
            peer_dst@,
            version,
            versions@,
        ),
{
    buf.push(0x80u8 | (random | 0x40u8));
    put_u32(buf, 0);
    peer_src.encode_long(buf);
    peer_dst.encode_long(buf);
    if version != 0x0a1a_2a3a {
        put_u32(buf, 0x0a1a_2a3a);
    } else {
        put_u32(buf, 0x0a1a_2a4a);
    }
    let ghost head = buf@;
    let mut i: usize = 0;
    while i < versions.len()
        invariant
            i <= versions@.len(),
            buf@ == head + spec_be32_all(versions@.take(i as int)),
        decreases versions@.len() - i,
    {
        put_u32(buf, versions[i]);
        i = i + 1;
        assert(versions@.take(i as int).drop_last() =~= versions@.take(i - 1));
        assert(buf@ =~= head + spec_be32_all(versions@.take(i as int)));
    }
    assert(versions@.take(versions@.len() as int) =~= versions@);
    assert(final(buf)@ =~= old(buf)@ + spec_version_negotiation(
        random,
        peer_src@,
        peer_dst@,
        version,
        versions@,
    ));
}

/// A datagram routed to a connection
pub struct DatagramConnectionEvent {
    /// When it was received, in nanoseconds of the caller's clock
    pub now: u64,
    /// Where it came from
    pub remote: SocketAddr,
    /// Its ECN codepoint
    pub ecn: Option<EcnCodepoint>,
    /// Its first packet, partially decoded
    pub first_decode: PartialDecode,
    /// The data following the first packet
    pub remaining: Option<Vec<u8>>,
}

/// Buffered Initial and 0-RTT messages for a pending incoming connection
pub struct IncomingBuffer {
    /// The initial destination CID the connection is known by
    pub orig_dst_cid: ConnectionId,
    /// The buffered datagrams
    pub datagrams: Vec<DatagramConnectionEvent>,
    /// Their total size
    pub total_bytes: u64,
}

/// Total size of the datagrams buffered in `b`
pub open spec fn spec_total_bytes(b: Seq<Option<IncomingBuffer>>) -> int
    decreases b.len(),
{
    if b.len() == 0 {
        0
    } else {
        spec_total_bytes(b.drop_last()) + match b.last() {
            Some(x) => x.total_bytes as int,
            None => 0,
        }
    }
}

/// Size buffered in an optional buffer
pub open spec fn spec_opt_total(x: Option<IncomingBuffer>) -> int {
    match x {
        Some(x) => x.total_bytes as int,
        None => 0,
    }
}

/// Replacing one buffer changes the total by the difference of their sizes
proof fn lemma_total_update(b: Seq<Option<IncomingBuffer>>, i: int, x: Option<IncomingBuffer>)
    requires
        0 <= i < b.len(),
    ensures
        spec_total_bytes(b.update(i, x)) == spec_total_bytes(b) - spec_opt_total(b[i])
            + spec_opt_total(x),
        spec_total_bytes(b) >= spec_opt_total(b[i]),
    decreases b.len(),
{
    lemma_total_nonneg(b.drop_last());
    if i < b.len() - 1 {
        lemma_total_update(b.drop_last(), i, x);
        assert(b.update(i, x).drop_last() =~= b.drop_last().update(i, x));
    } else {
        assert(b.update(i, x).drop_last() =~= b.drop_last());
    }
}

/// Totals are never negative
proof fn lemma_total_nonneg(b: Seq<Option<IncomingBuffer>>)
    ensures
        spec_total_bytes(b) >= 0,
    decreases b.len(),
{
    if b.len() > 0 {
        lemma_total_nonneg(b.drop_last());
    }
}

/// Event resulting from processing a single datagram
pub enum DatagramEvent {
    /// The datagram is redirected to its `Connection`
    ConnectionEvent(ConnectionHandle, DatagramConnectionEvent),
    /// The datagram may result in starting a new `Connection`
    NewConnection(DatagramConnectionEvent),
    /// Response generated directly by the endpoint, of `size` bytes in the caller's buffer, to
    /// be sent to `destination` from local address `src_ip`
    Response { destination: SocketAddr, src_ip: Option<IpAddr>, size: usize },
}

/// What the endpoint does with a datagram
pub enum HandleClass {
    /// Nothing
    Drop,
    /// Answer with a version negotiation packet
    Negotiate { src_cid: Seq<u8>, dst_cid: Seq<u8>, version: u32 },
    /// Buffer it for the pending incoming connection with this buffer
    Buffer(usize),
    /// Hand it to this connection
    Deliver(ConnectionHandle),
    /// Hand it over as a possible new connection
    NewInitial,
    /// Answer with a stateless reset for the connection with this destination CID, if one
    /// may be sent
    StatelessReset { dst_cid: Seq<u8> },
}

/// What an endpoint (a server if `server`) with local CIDs of `cid_len` bytes, supporting
/// `versions`, does with datagram `data` received on `addresses`, given its routing table
pub open spec fn spec_handle_class(
    server: bool,
    cid_len: nat,
    versions: Seq<u32>,
    grease: bool,
    idx: IndexView,
    addresses: FourTuple,
    data: Seq<u8>,
) -> HandleClass {
    match spec_decode_header(data, cid_len, versions, grease) {
        Err(DecodeErrorView::UnsupportedVersion { src_cid, dst_cid, version }) => if server {
            HandleClass::Negotiate { src_cid, dst_cid, version }
        } else {
            HandleClass::Drop
        },
        Err(_) => HandleClass::Drop,
        Ok((h, n)) => {
            let plen = spec_packet_len(h, n, data.len());
            if data.len() < plen {
                HandleClass::Drop
            } else {
                match spec_route(idx, addresses, h, data.subrange(0, plen)) {
                    Some(RouteDatagramTo::Incoming(i)) => HandleClass::Buffer(i),
                    Some(RouteDatagramTo::Connection(ch)) => HandleClass::Deliver(ch),
                    None => if !server {
                        HandleClass::StatelessReset { dst_cid: spec_header_dst_cid(h) }
                    } else if h is Initial {
                        if data.len() < MIN_INITIAL_SIZE {
                            HandleClass::Drop
                        } else {
                            HandleClass::NewInitial
                        }
                    } else if !(h is Short) {
                        HandleClass::Drop
                    } else {
                        HandleClass::StatelessReset { dst_cid: spec_header_dst_cid(h) }
                    },
                }
            }
        },
    }
}

/// Smallest padding for a stateless reset to look like a short-header packet
pub const MIN_PADDING_LEN: usize = 5;

/// Padding from which a stateless reset can't be told apart from a real packet
pub const IDEAL_MIN_PADDING_LEN: usize = 25;

/// The largest padding of a stateless reset answering a datagram of `len` bytes: one byte
/// less than leaves it as long as the datagram, which prevents amplification and reset loops;
/// `None` where that leaves no more than the minimum padding
pub open spec fn spec_max_padding(len: nat) -> Option<nat> {
    if len >= RESET_TOKEN_SIZE && len - RESET_TOKEN_SIZE > MIN_PADDING_LEN {
        Some((len - RESET_TOKEN_SIZE - 1) as nat)
    } else {
        None
    }
}

/// Whether a stateless reset may be sent at `now`, the last one having been sent at `last`:
/// resets are at least `interval` apart
pub open spec fn spec_reset_allowed(last: Option<u64>, interval: u64, now: u64) -> bool {
    match last {
        Some(l) => l + interval <= now,
        None => true,
    }
}

/// A stateless reset answering a datagram of `len` bytes received on `addresses`, with the
/// last reset sent at `last` and resets at least `interval` apart: where one may be sent, the
/// caller's buffer holds it (random padding, the first byte marking a short header, then the
/// reset token `token`), it is sent back to the sender, and `now` becomes the time of the last
/// reset; otherwise nothing happens
pub open spec fn spec_reset_effect(
    last: Option<u64>,
    interval: u64,
    now: u64,
    len: nat,
    addresses: FourTuple,
    token: Seq<u8>,
    buf: Seq<u8>,
    post_buf: Seq<u8>,
    post_last: Option<u64>,
    r: Option<DatagramEvent>,
) -> bool {
    if spec_reset_allowed(last, interval, now) && spec_max_padding(len) is Some {
        let max = spec_max_padding(len)->Some_0;
        let padding = post_buf.len() - RESET_TOKEN_SIZE;
        &&& post_last == Some(now)
        &&& post_buf.len() >= RESET_TOKEN_SIZE
        &&& if max <= IDEAL_MIN_PADDING_LEN {
            padding == max
        } else {
            IDEAL_MIN_PADDING_LEN <= padding < max
        }
        &&& post_buf[0] & 0xc0u8 == 0x40u8
        &&& post_buf.subrange(padding, post_buf.len() as int) == token
        &&& post_buf.len() < len
        &&& r == Some(
            DatagramEvent::Response {
                destination: addresses.remote,
                src_ip: addresses.local_ip,
                size: post_buf.len() as usize,
            },
        )
    } else {
        &&& r is None
        &&& post_buf == buf
        &&& post_last == last
    }
}

/// A random byte
#[verifier::external_body]
fn random_u8() -> u8 {
    rand::thread_rng().gen()
}

/// Events a connection reports to its endpoint
#[derive(Debug, Copy, Clone)]
pub enum EndpointEvent {
    /// The connection needs `n` more local connection IDs
    NeedIdentifiers { now: u64, n: u64 },
    /// The connection has been drained
    Drained,
    /// The peer gave `token` as the stateless reset token of the CID used towards `remote`
    ResetToken { remote: SocketAddr, token: ResetToken },
    /// The peer retired the local CID with sequence number `seq`; another may be issued if
    /// `allow_more_cids`
    RetireConnectionId { now: u64, seq: u64, allow_more_cids: bool },
}

/// New local CIDs that a connection needs at time `now`; they are found with
/// [`Endpoint::claim_cid`] and handed out with [`Endpoint::issue_identifiers`]
#[derive(Debug, Copy, Clone, PartialEq, Eq, Structural)]
pub struct IdentifierRequest {
    /// When they were requested
    pub now: u64,
    /// How many
    pub count: u64,
}

/// The first position of sequence number `seq` among local CIDs `loc`
pub open spec fn spec_find_seq(loc: Seq<(u64, ConnectionId)>, seq: u64) -> Option<int> {
    if exists|i: int| 0 <= i < loc.len() && #[trigger] loc[i].0 == seq {
        Some(
            choose|i: int|
                0 <= i < loc.len() && #[trigger] loc[i].0 == seq && forall|j: int|
                    0 <= j < i ==> loc[j].0 != seq,
        )
    } else {
        None
    }
}

/// `post` is index `pre` without any reference to connection `conn`
pub open spec fn spec_index_without(pre: IndexView, post: IndexView, conn: ConnectionMeta) -> bool {
    &&& post.initial == if conn.init_cid@.len() > 0 {
        pre.initial.remove(conn.init_cid@)
    } else {
        pre.initial
    }
    &&& forall|k: Seq<u8>| #[trigger]
        post.ids.contains_key(k) == (pre.ids.contains_key(k) && forall|i: int|
            0 <= i < conn.loc_cids@.len() ==> #[trigger] conn.loc_cids@[i].1@ != k)
    &&& forall|k: Seq<u8>| #[trigger] post.ids.contains_key(k) ==> post.ids[k] == pre.ids[k]
    &&& post.incoming == pre.incoming.remove(spec_four_tuple_key(conn.addresses))
    &&& post.outgoing == pre.outgoing.remove(spec_addr_key(conn.addresses.remote))
    &&& post.reset_tokens == match conn.reset_token {
        Some((remote, token)) => pre.reset_tokens.remove(spec_addr_key(remote) + token@),
        None => pre.reset_tokens,
    }
}

/// The server's preferred addresses and the local CID to use there
#[derive(Debug, Copy, Clone)]
pub struct PreferredAddressConfig {
    /// IPv4 address, if any
    pub address_v4: Option<SocketAddrV4>,
    /// IPv6 address, if any
    pub address_v6: Option<SocketAddrV6>,
    /// The local CID for the preferred address
    pub connection_id: ConnectionId,
}

/// The transport parameters a server announces for a connection it accepts: those of
/// `config` with local CID `loc_cid` and its reset token by `reset_key`, the client's original
/// destination CID and the source CID of a retry, and the preferred address, if the server has
/// one, with its own CID and reset token
pub fn accepted_params<K: HmacKey>(
    config: &TransportConfig,
    cid_len: usize,
    loc_cid: ConnectionId,
    reset_key: &K,
    orig_dst_cid: ConnectionId,
    retry_src_cid: Option<ConnectionId>,
    preferred: Option<PreferredAddressConfig>,
) -> (r: TransportParameters)
    ensures
        ({
            let base = TransportParameters::spec_new_view(config, cid_len, loc_cid);
            let v = r.spec_view();
            &&& v.ints == base.ints
            &&& v.initial_src_cid == base.initial_src_cid
            &&& v.min_ack_delay == base.min_ack_delay
            &&& v.disable_active_migration == base.disable_active_migration
            &&& v.max_datagram_frame_size == base.max_datagram_frame_size
            &&& v.grease_quic_bit == base.grease_quic_bit
            &&& v.stateless_reset_token == Some(
                reset_key.spec_signature(loc_cid@).subrange(0, RESET_TOKEN_SIZE as int),
            )
            &&& v.original_dst_cid == Some(orig_dst_cid@)
            &&& v.retry_src_cid == match retry_src_cid {
                Some(c) => Some(c@),
                None => None,
            }
            &&& match preferred {
                Some(p) if p.address_v4 is Some || p.address_v6 is Some => {
                    &&& v.preferred_address matches Some(pa)
                    &&& pa.v4 == match p.address_v4 {
                        Some(a) => Some((a.ip@, a.port)),
                        None => None,
                    }
                    &&& pa.v6 == match p.address_v6 {
                        Some(a) => Some((a.ip@, a.port)),
                        None => None,
                    }
                    &&& pa.cid == p.connection_id@
                    &&& pa.token == reset_key.spec_signature(p.connection_id@).subrange(
                        0,
                        RESET_TOKEN_SIZE as int,
                    )
                },
                _ => v.preferred_address is None,
            }
        }),
{
    let mut params = TransportParameters::new(config, cid_len, loc_cid);
    params.stateless_reset_token = Some(ResetToken::new(reset_key, &loc_cid));
    params.original_dst_cid = Some(orig_dst_cid);
    params.retry_src_cid = retry_src_cid;
    match preferred {
        Some(p) => {
            if p.address_v4.is_some() || p.address_v6.is_some() {
                params.preferred_address = Some(
                    PreferredAddress {
                        address_v4: p.address_v4,
                        address_v6: p.address_v6,
                        connection_id: p.connection_id,
                        stateless_reset_token: ResetToken::new(reset_key, &p.connection_id),
                    },
                );
            }
        },
        None => {},
    }
    params
}

/// Once a connection is gone from the index, none of its local CIDs routes anywhere, nor does
/// its initial CID for Initial packets
pub proof fn lemma_removed_routes_nowhere(pre: IndexView, post: IndexView, conn: ConnectionMeta)
    requires
        spec_index_without(pre, post, conn),
    ensures
        forall|i: int| 0 <= i < conn.loc_cids@.len() ==> !post.ids.contains_key(#[trigger] conn.loc_cids@[i].1@),
        conn.init_cid@.len() > 0 ==> !post.initial.contains_key(conn.init_cid@),
{
    assert forall|i: int| 0 <= i < conn.loc_cids@.len() implies !post.ids.contains_key(#[trigger] conn.loc_cids@[i].1@) by {
        let k = conn.loc_cids@[i].1@;
        if post.ids.contains_key(k) {
            assert(conn.loc_cids@[i].1@ != k);
        }
    }
}

/// Every local CID the index routes names a live connection of `conns` that lists that CID
pub open spec fn spec_ids_tracked(idx: IndexView, conns: Seq<Option<ConnectionMeta>>) -> bool {
    forall|k: Seq<u8>| #[trigger]
        idx.ids.contains_key(k) ==> {
            let ch = idx.ids[k];
            &&& ch.0 < conns.len()
            &&& conns[ch.0 as int] is Some
            &&& exists|i: int|
                0 <= i < conns[ch.0 as int]->Some_0.loc_cids@.len()
                    && #[trigger] conns[ch.0 as int]->Some_0.loc_cids@[i].1@ == k
        }
}

/// Draining a live connection (its slot emptied, its routes removed from the index) keeps an
/// index that tracks the live connections tracking them
pub proof fn lemma_drain_keeps_tracked(
    pre: IndexView,
    post: IndexView,
    conns: Seq<Option<ConnectionMeta>>,
    ch: ConnectionHandle,
)
    requires
        spec_ids_tracked(pre, conns),
        ch.0 < conns.len(),
        conns[ch.0 as int] is Some,
        spec_index_without(pre, post, conns[ch.0 as int]->Some_0),
    ensures
        spec_ids_tracked(post, conns.update(ch.0 as int, None)),
{
    let c = conns[ch.0 as int]->Some_0;
    let conns2 = conns.update(ch.0 as int, None);
    assert forall|k: Seq<u8>| #[trigger] post.ids.contains_key(k) implies {
        let ch2 = post.ids[k];
        &&& ch2.0 < conns2.len()
        &&& conns2[ch2.0 as int] is Some
        &&& exists|i: int|
            0 <= i < conns2[ch2.0 as int]->Some_0.loc_cids@.len()
                && #[trigger] conns2[ch2.0 as int]->Some_0.loc_cids@[i].1@ == k
    } by {
        assert(pre.ids.contains_key(k));
        let ch2 = pre.ids[k];
        assert(post.ids[k] == ch2);
        let i = choose|i: int|
            0 <= i < conns[ch2.0 as int]->Some_0.loc_cids@.len()
                && #[trigger] conns[ch2.0 as int]->Some_0.loc_cids@[i].1@ == k;
        if ch2.0 == ch.0 {
            assert(c.loc_cids@[i].1@ != k);
        }
        assert(conns2[ch2.0 as int] == conns[ch2.0 as int]);
    }
}

/// A connection table with no live connection has only empty slots
proof fn lemma_none_known(conns: Seq<Option<ConnectionMeta>>, j: int)
    requires
        spec_count_known(conns) == 0,
        0 <= j < conns.len(),
    ensures
        conns[j] is None,
    decreases conns.len(),
{
    if j < conns.len() - 1 {
        lemma_none_known(conns.drop_last(), j);
    }
}

/// Once every connection has drained, an index that tracks the live connections routes no
/// local CID
pub proof fn lemma_all_drained_no_cids(idx: IndexView, conns: Seq<Option<ConnectionMeta>>)
    requires
        spec_ids_tracked(idx, conns),
        spec_count_known(conns) == 0,
    ensures
        idx.ids.dom() == Set::<Seq<u8>>::empty(),
{
    assert forall|k: Seq<u8>| !idx.ids.dom().contains(k) by {
        if idx.ids.contains_key(k) {
            lemma_none_known(conns, idx.ids[k].0 as int);
        }
    }
    assert(idx.ids.dom() =~= Set::<Seq<u8>>::empty());
}

/// The endpoint's invariant: local CIDs fit, the buffered byte total is the sum over the
/// buffers, and each initial route to a pending incoming connection names a live buffer that
/// records that CID
pub open spec fn spec_endpoint_ok(
    local_cid_len: usize,
    server: Option<ServerLimits>,
    index: IndexView,
    buffers: Seq<Option<IncomingBuffer>>,
    all_total: u64,
) -> bool {
    &&& local_cid_len <= MAX_CID_SIZE
    &&& all_total == spec_total_bytes(buffers)
    &&& forall|k: Seq<u8>| #[trigger]
        index.initial.contains_key(k) ==> match index.initial[k] {
            RouteDatagramTo::Incoming(i) => {
                &&& server is Some
                &&& i < buffers.len()
                &&& buffers[i as int] is Some
                &&& buffers[i as int]->Some_0.orig_dst_cid@ == k
            },
            RouteDatagramTo::Connection(_) => true,
        }
}

/// The pieces of an endpoint, taken apart to be changed together
struct EndpointParts {
    local_cid_len: usize,
    supported_versions: Vec<u32>,
    grease_quic_bit: bool,
    server: Option<ServerLimits>,
    index: ConnectionIndex,
    incoming_buffers: Vec<Option<IncomingBuffer>>,
    all_incoming_buffers_total_bytes: u64,
    connections: Vec<Option<ConnectionMeta>>,
    min_reset_interval: u64,
    last_stateless_reset: Option<u64>,
}

/// The endpoint's routing state: it consumes incoming datagrams and decides where they go
pub struct Endpoint {
    local_cid_len: usize,
    supported_versions: Vec<u32>,
    grease_quic_bit: bool,
    server: Option<ServerLimits>,
    index: ConnectionIndex,
    incoming_buffers: Vec<Option<IncomingBuffer>>,
    all_incoming_buffers_total_bytes: u64,
    connections: Vec<Option<ConnectionMeta>>,
    min_reset_interval: u64,
    last_stateless_reset: Option<u64>,
}

impl Endpoint {
    #[verifier::type_invariant]
    closed spec fn inv(self) -> bool {
        spec_endpoint_ok(
            self.local_cid_len,
            self.server,
            self.index.spec_view(),
            self.incoming_buffers@,
            self.all_incoming_buffers_total_bytes,
        )
    }

    /// Take the endpoint apart, leaving an empty one in its place
    fn take_parts(&mut self) -> (p: EndpointParts)
        ensures
            spec_endpoint_ok(
                p.local_cid_len,
                p.server,
                p.index.spec_view(),
                p.incoming_buffers@,
                p.all_incoming_buffers_total_bytes,
            ),
            p.local_cid_len == old(self).local_cid_len,
            p.supported_versions == old(self).supported_versions,
            p.grease_quic_bit == old(self).grease_quic_bit,
            p.server == old(self).server,
            p.index == old(self).index,
            p.incoming_buffers == old(self).incoming_buffers,
            p.all_incoming_buffers_total_bytes == old(self).all_incoming_buffers_total_bytes,
            p.connections == old(self).connections,
            p.min_reset_interval == old(self).min_reset_interval,
            p.last_stateless_reset == old(self).last_stateless_reset,
    {
        let mut tmp = Endpoint::new(0, Vec::new(), false, None, 0);
        std::mem::swap(self, &mut tmp);
        proof {
            use_type_invariant(&tmp);
        }
        let Endpoint {
            local_cid_len,
            supported_versions,
            grease_quic_bit,
            server,
            index,
            incoming_buffers,
            all_incoming_buffers_total_bytes,
            connections,
            min_reset_interval,
            last_stateless_reset,
        } = tmp;
        EndpointParts {
            local_cid_len,
            supported_versions,
            grease_quic_bit,
            server,
            index,
            incoming_buffers,
            all_incoming_buffers_total_bytes,
            connections,
            min_reset_interval,
            last_stateless_reset,
        }
    }

    /// Put the endpoint together from its parts
    fn put_parts(&mut self, p: EndpointParts)
        requires
            spec_endpoint_ok(
                p.local_cid_len,
                p.server,
                p.index.spec_view(),
                p.incoming_buffers@,
                p.all_incoming_buffers_total_bytes,
            ),
        ensures
            final(self).local_cid_len == p.local_cid_len,
            final(self).supported_versions == p.supported_versions,
            final(self).grease_quic_bit == p.grease_quic_bit,
            final(self).server == p.server,
            final(self).index == p.index,
            final(self).incoming_buffers == p.incoming_buffers,
            final(self).all_incoming_buffers_total_bytes == p.all_incoming_buffers_total_bytes,
            final(self).connections == p.connections,
            final(self).min_reset_interval == p.min_reset_interval,
            final(self).last_stateless_reset == p.last_stateless_reset,
    {
        let EndpointParts {
            local_cid_len,
            supported_versions,
            grease_quic_bit,
            server,
            index,
            incoming_buffers,
            all_incoming_buffers_total_bytes,
            connections,
            min_reset_interval,
            last_stateless_reset,
        } = p;
        *self = Endpoint {
            local_cid_len,
            supported_versions,
            grease_quic_bit,
            server,
            index,
            incoming_buffers,
            all_incoming_buffers_total_bytes,
            connections,
            min_reset_interval,
            last_stateless_reset,
        };
    }

    /// Length of local CIDs
    pub closed spec fn spec_cid_len(&self) -> usize {
        self.local_cid_len
    }

    /// Supported versions
    pub closed spec fn spec_versions(&self) -> Seq<u32> {
        self.supported_versions@
    }

    /// Whether the reserved bit of the QUIC header may be greased
    pub closed spec fn spec_grease(&self) -> bool {
        self.grease_quic_bit
    }

    /// Limits on connection attempts, for a server
    pub closed spec fn spec_server(&self) -> Option<ServerLimits> {
        self.server
    }

    /// The routing table
    pub closed spec fn spec_index(&self) -> IndexView {
        self.index.spec_view()
    }

    /// Buffered bytes of each pending incoming connection, by buffer index
    pub closed spec fn spec_buffer_totals(&self) -> Seq<Option<u64>> {
        self.incoming_buffers@.map_values(
            |b: Option<IncomingBuffer>|
                match b {
                    Some(x) => Some(x.total_bytes),
                    None => None,
                },
        )
    }

    /// The original destination CID recorded with buffer `i`
    pub closed spec fn spec_buffer_orig_cid(&self, i: int) -> Seq<u8> {
        self.incoming_buffers@[i]->Some_0.orig_dst_cid@
    }

    /// Number of datagrams buffered for each pending incoming connection
    pub closed spec fn spec_buffer_counts(&self) -> Seq<Option<nat>> {
        self.incoming_buffers@.map_values(
            |b: Option<IncomingBuffer>|
                match b {
                    Some(x) => Some(x.datagrams@.len()),
                    None => None,
                },
        )
    }

    /// Bytes buffered for all pending incoming connections
    pub closed spec fn spec_all_total(&self) -> u64 {
        self.all_incoming_buffers_total_bytes
    }

    /// Minimum interval between outgoing stateless resets
    pub closed spec fn spec_min_reset_interval(&self) -> u64 {
        self.min_reset_interval
    }

    /// When the last stateless reset was sent, if one was
    pub closed spec fn spec_last_reset(&self) -> Option<u64> {
        self.last_stateless_reset
    }

    /// What handling `data` received on `addresses` does
    pub open spec fn spec_class(&self, addresses: FourTuple, data: Seq<u8>) -> HandleClass {
        spec_handle_class(
            self.spec_server() is Some,
            self.spec_cid_len() as nat,
            self.spec_versions(),
            self.spec_grease(),
            self.spec_index(),
            addresses,
            data,
        )
    }

    /// Create an endpoint; a server if `server` is given
    pub fn new(
        local_cid_len: usize,
        supported_versions: Vec<u32>,
        grease_quic_bit: bool,
        server: Option<ServerLimits>,
        min_reset_interval: u64,
    ) -> (r: Endpoint)
        requires
            local_cid_len <= MAX_CID_SIZE,
        ensures
            r.spec_cid_len() == local_cid_len,
            r.spec_min_reset_interval() == min_reset_interval,
            r.spec_last_reset() is None,
            r.spec_versions() == supported_versions@,
            r.spec_grease() == grease_quic_bit,
            r.spec_server() == server,
            r.spec_index().ids == Map::<Seq<u8>, ConnectionHandle>::empty(),
            r.spec_index().initial == Map::<Seq<u8>, RouteDatagramTo>::empty(),
            r.spec_buffer_totals().len() == 0,
            r.spec_all_total() == 0,
    {
        let r = Endpoint {
            local_cid_len,
            supported_versions,
            grease_quic_bit,
            server,
            index: ConnectionIndex::new(),
            incoming_buffers: Vec::new(),
            all_incoming_buffers_total_bytes: 0,
            connections: Vec::new(),
            min_reset_interval,
            last_stateless_reset: None,
        };
        assert(r.incoming_buffers@ =~= Seq::<Option<IncomingBuffer>>::empty());
        r
    }

    /// Whether 3/4 of the local CID space is used up
    pub fn cids_exhausted(&self) -> (r: bool)
        ensures
            r == spec_cids_exhausted(self.spec_cid_len() as nat, self.spec_index().ids.dom().len()),
    {
        proof {
            use_type_invariant(self);
        }
        let n = self.index.connection_ids_len();
        cids_exhausted(self.local_cid_len, n)
    }

    /// What handling datagram `data`, received at `now` on `addresses`, does: the endpoint goes
    /// from `self` to `post`, the caller's buffer from `buf` to `post_buf`, and `r` is returned;
    /// a version negotiation answer carries `random` as its random byte, and a stateless reset
    /// the token that `reset_key` gives the packet's destination CID
    pub open spec fn spec_handled<K: HmacKey>(
        &self,
        reset_key: &K,
        post: Endpoint,
        now: u64,
        addresses: FourTuple,
        data: Seq<u8>,
        random: u8,
        buf: Seq<u8>,
        post_buf: Seq<u8>,
        r: Option<DatagramEvent>,
    ) -> bool {
        let unchanged_buffers = post.spec_buffer_totals() == self.spec_buffer_totals()
            && post.spec_all_total() == self.spec_all_total();
        &&& post.spec_cid_len() == self.spec_cid_len()
        &&& post.spec_versions() == self.spec_versions()
        &&& post.spec_server() == self.spec_server()
        &&& post.spec_connections() == self.spec_connections()
        &&& post.spec_index() == self.spec_index()
        &&& post.spec_min_reset_interval() == self.spec_min_reset_interval()
        &&& match self.spec_class(addresses, data) {
            HandleClass::Drop => {
                &&& r is None
                &&& post_buf == buf
                &&& unchanged_buffers
                &&& post.spec_last_reset() == self.spec_last_reset()
            },
            HandleClass::Negotiate { src_cid, dst_cid, version } => {
                &&& post_buf == buf + spec_version_negotiation(
                    random,
                    src_cid,
                    dst_cid,
                    version,
                    self.spec_versions(),
                )
                &&& r == Some(
                    DatagramEvent::Response {
                        destination: addresses.remote,
                        src_ip: addresses.local_ip,
                        size: post_buf.len() as usize,
                    },
                )
                &&& unchanged_buffers
                &&& post.spec_last_reset() == self.spec_last_reset()
            },
            HandleClass::Buffer(i) => {
                &&& r is None
                &&& post_buf == buf
                &&& post.spec_last_reset() == self.spec_last_reset()
                &&& i < self.spec_buffer_totals().len()
                &&& self.spec_buffer_totals()[i as int] is Some
                &&& if spec_incoming_admits(
                    self.spec_buffer_totals()[i as int]->Some_0,
                    self.spec_all_total(),
                    data.len() as u64,
                    self.spec_server()->Some_0,
                ) {
                    &&& post.spec_buffer_totals() == self.spec_buffer_totals().update(
                        i as int,
                        Some((self.spec_buffer_totals()[i as int]->Some_0 + data.len()) as u64),
                    )
                    &&& post.spec_all_total() == self.spec_all_total() + data.len()
                    &&& post.spec_buffer_counts()[i as int] == Some(
                        self.spec_buffer_counts()[i as int]->Some_0 + 1,
                    )
                } else {
                    unchanged_buffers
                }
            },
            HandleClass::Deliver(ch) => {
                &&& r matches Some(DatagramEvent::ConnectionEvent(c, ev)) && c == ch && ev.now
                    == now && spec_addr_key(ev.remote) == spec_addr_key(addresses.remote)
                    && ev.first_decode.spec_data() == data.subrange(
                    0,
                    ev.first_decode.spec_data().len() as int,
                )
                &&& post_buf == buf
                &&& unchanged_buffers
                &&& post.spec_last_reset() == self.spec_last_reset()
            },
            HandleClass::NewInitial => {
                &&& r matches Some(DatagramEvent::NewConnection(ev)) && ev.now == now
                    && ev.first_decode.spec_header() is Initial
                    && ev.first_decode.spec_data() == data.subrange(
                    0,
                    ev.first_decode.spec_data().len() as int,
                )
                &&& post_buf == buf
                &&& unchanged_buffers
                &&& post.spec_last_reset() == self.spec_last_reset()
            },
            HandleClass::StatelessReset { dst_cid } => {
                &&& unchanged_buffers
                &&& spec_reset_effect(
                    self.spec_last_reset(),
                    self.spec_min_reset_interval(),
                    now,
                    data.len(),
                    addresses,
                    reset_key.spec_signature(dst_cid).subrange(0, RESET_TOKEN_SIZE as int),
                    buf,
                    post_buf,
                    post.spec_last_reset(),
                    r,
                )
            },
        }
    }

    /// Process an incoming UDP datagram received on `addresses`
    ///
    /// An unsupported version is answered with a version negotiation packet, by a server; a
    /// datagram for a pending incoming connection is buffered if there is room; one for a known
    /// connection is handed to it; an Initial packet of sufficient size for no known connection
    /// may start one, at a server; a short-header packet for no known connection (any packet,
    /// at a client) is answered with a stateless reset made with `reset_key`, if resets are not
    /// too frequent and the datagram is large enough; anything else is dropped. Responses are
    /// written to `buf`.
    pub fn handle<K: HmacKey>(
        &mut self,
        now: u64,
        addresses: FourTuple,
        ecn: Option<EcnCodepoint>,
        data: Vec<u8>,
        reset_key: &K,
        buf: &mut Vec<u8>,
    ) -> (r: Option<DatagramEvent>)
        ensures
            old(self).spec_class(addresses, data@) is Negotiate ==> exists|random: u8|
                #[trigger] old(self).spec_handled(
                    reset_key,
                    *final(self),
                    now,
                    addresses,
                    data@,
                    random,
                    old(buf)@,
                    final(buf)@,
                    r,
                ),
            !(old(self).spec_class(addresses, data@) is Negotiate) ==> old(self).spec_handled(
                reset_key,
                *final(self),
                now,
                addresses,
                data@,
                0,
                old(buf)@,
                final(buf)@,
                r,
            ),
    {
        let random = random_u8();
        self.handle_with_random(now, addresses, ecn, data, random, reset_key, buf)
    }

    /// Process an incoming UDP datagram, with `random` as the random byte of a version
    /// negotiation response
    #[verifier::spinoff_prover]
    #[verifier::rlimit(60)]
    pub fn handle_with_random<K: HmacKey>(
        &mut self,
        now: u64,
        addresses: FourTuple,
        ecn: Option<EcnCodepoint>,
        data: Vec<u8>,
        random: u8,
        reset_key: &K,
        buf: &mut Vec<u8>,
    ) -> (r: Option<DatagramEvent>)
        ensures
            old(self).spec_handled(
                reset_key,
                *final(self),
                now,
                addresses,
                data@,
                random,
                old(buf)@,
                final(buf)@,
                r,
            ),
    {
        proof {
            use_type_invariant(&*self);
        }
        let datagram_len = data.len();
        let ghost dv = data@;
        proof {
            assert(dv.subrange(0, dv.len() as int) =~= dv);
        }
        let parser = FixedLengthConnectionIdParser::new(self.local_cid_len);
        let decoded = PartialDecode::new(
            data,
            &parser,
            self.supported_versions.as_slice(),
            self.grease_quic_bit,
        );
        let (first_decode, remaining) = match decoded {
            Ok(x) => x,
            Err(PacketDecodeError::UnsupportedVersion { src_cid, dst_cid, version }) => {
                if self.server.is_none() {
                    return None;
                }
                write_version_negotiation(
                    random,
                    &src_cid,
                    &dst_cid,
                    version,
                    self.supported_versions.as_slice(),
                    buf,
                );
                return Some(
                    DatagramEvent::Response {
                        destination: addresses.remote,
                        src_ip: addresses.local_ip,
                        size: buf.len(),
                    },
                );
            },
            Err(_) => {
                return None;
            },
        };
        let route = self.index.get(&addresses, &first_decode);
        let dst_cid = *first_decode.dst_cid();
        let long = first_decode.has_long_header();
        let event = DatagramConnectionEvent {
            now,
            remote: addresses.remote,
            ecn,
            first_decode,
            remaining,
        };
        match route {
            Some(RouteDatagramTo::Incoming(i)) => {
                self.buffer_incoming(i, event, datagram_len as u64);
                None
            },
            Some(RouteDatagramTo::Connection(ch)) => Some(DatagramEvent::ConnectionEvent(ch, event)),
            None => {
                if self.server.is_none() {
                    self.stateless_reset(now, datagram_len, &addresses, &dst_cid, reset_key, buf)
                } else if event.first_decode.is_initial() {
                    if datagram_len < MIN_INITIAL_SIZE as usize {
                        return None;
                    }
                    Some(DatagramEvent::NewConnection(event))
                } else if long {
                    None
                } else {
                    self.stateless_reset(now, datagram_len, &addresses, &dst_cid, reset_key, buf)
                }
            },
        }
    }

    /// Answer a datagram of `inciting_len` bytes for the unknown connection `dst_cid`, received
    /// on `addresses`, with a stateless reset: random padding whose first byte marks a short
    /// header, followed by the reset token that `reset_key` gives `dst_cid`. Nothing is sent
    /// within the minimum interval after the last reset, or where the datagram is too small for
    /// a reset shorter than it.
    fn stateless_reset<K: HmacKey>(
        &mut self,
        now: u64,
        inciting_len: usize,
        addresses: &FourTuple,
        dst_cid: &ConnectionId,
        reset_key: &K,
        buf: &mut Vec<u8>,
    ) -> (r: Option<DatagramEvent>)
        ensures
            final(self).spec_cid_len() == old(self).spec_cid_len(),
            final(self).spec_versions() == old(self).spec_versions(),
            final(self).spec_server() == old(self).spec_server(),
            final(self).spec_connections() == old(self).spec_connections(),
            final(self).spec_index() == old(self).spec_index(),
            final(self).spec_buffer_totals() == old(self).spec_buffer_totals(),
            final(self).spec_all_total() == old(self).spec_all_total(),
            final(self).spec_min_reset_interval() == old(self).spec_min_reset_interval(),
            spec_reset_effect(
                old(self).spec_last_reset(),
                old(self).spec_min_reset_interval(),
                now,
                inciting_len as nat,
                *addresses,
                reset_key.spec_signature(dst_cid@).subrange(0, RESET_TOKEN_SIZE as int),
                old(buf)@,
                final(buf)@,
                final(self).spec_last_reset(),
                r,
            ),
    {
        proof {
            use_type_invariant(&*self);
        }
        let allowed = match self.last_stateless_reset {
            Some(last) => match last.checked_add(self.min_reset_interval) {
                Some(t) => t <= now,
                None => false,
            },
            None => true,
        };
        if !allowed {
            return None;
        }
        if inciting_len < RESET_TOKEN_SIZE || inciting_len - RESET_TOKEN_SIZE <= MIN_PADDING_LEN {
            return None;
        }
        let max_padding_len = inciting_len - RESET_TOKEN_SIZE - 1;
        self.last_stateless_reset = Some(now);
        let padding_len: usize = if max_padding_len <= IDEAL_MIN_PADDING_LEN {
            max_padding_len
        } else {
            random_in_range(IDEAL_MIN_PADDING_LEN as u64, max_padding_len as u64) as usize
        };
        let mut reset = random_bytes(padding_len);
        let b0 = reset[0];
        let first = 0x40u8 | (b0 >> 2u8);
        assert(first & 0xc0u8 == 0x40u8) by (bit_vector)
            requires
                first == 0x40u8 | (b0 >> 2u8),
        ;
        reset.set(0, first);
        let token = ResetToken::new(reset_key, dst_cid);
        let ghost padding = reset@;
        token.encode(&mut reset);
        proof {
            assert(reset@.subrange(padding.len() as int, reset@.len() as int) =~= token@);
            assert(reset@[0] == padding[0]);
        }
        *buf = reset;
        Some(
            DatagramEvent::Response {
                destination: addresses.remote,
                src_ip: addresses.local_ip,
                size: buf.len(),
            },
        )
    }

    /// Buffer `event`, of `len` bytes, for the pending incoming connection with buffer `i`, if
    /// there is room
    fn buffer_incoming(&mut self, i: usize, event: DatagramConnectionEvent, len: u64)
        requires
            old(self).spec_server() is Some,
            i < old(self).spec_buffer_totals().len(),
            old(self).spec_buffer_totals()[i as int] is Some,
        ensures
            final(self).spec_cid_len() == old(self).spec_cid_len(),
            final(self).spec_versions() == old(self).spec_versions(),
            final(self).spec_server() == old(self).spec_server(),
            final(self).spec_connections() == old(self).spec_connections(),
            final(self).spec_index() == old(self).spec_index(),
            final(self).spec_min_reset_interval() == old(self).spec_min_reset_interval(),
            final(self).spec_last_reset() == old(self).spec_last_reset(),
            if spec_incoming_admits(
                old(self).spec_buffer_totals()[i as int]->Some_0,
                old(self).spec_all_total(),
                len,
                old(self).spec_server()->Some_0,
            ) {
                &&& final(self).spec_buffer_totals() == old(self).spec_buffer_totals().update(
                    i as int,
                    Some((old(self).spec_buffer_totals()[i as int]->Some_0 + len) as u64),
                )
                &&& final(self).spec_all_total() == old(self).spec_all_total() + len
                &&& final(self).spec_buffer_counts()[i as int] == Some(
                    old(self).spec_buffer_counts()[i as int]->Some_0 + 1,
                )
            } else {
                &&& final(self).spec_buffer_totals() == old(self).spec_buffer_totals()
                &&& final(self).spec_all_total() == old(self).spec_all_total()
            },
    {
        proof {
            use_type_invariant(&*self);
        }
        let limits = match self.server {
            Some(l) => l,
            None => {
                return;
            },
        };
        let total = match &self.incoming_buffers[i] {
            Some(b) => b.total_bytes,
            None => {
                return;
            },
        };
        let all = self.all_incoming_buffers_total_bytes;
        let fits_one = match total.checked_add(len) {
            Some(n) => n <= limits.incoming_buffer_size,
            None => false,
        };
        let fits_all = match all.checked_add(len) {
            Some(n) => n <= limits.incoming_buffer_size_total,
            None => false,
        };
        if fits_one && fits_all {
            let mut tmp = Endpoint::new(0, Vec::new(), false, None, 0);
            std::mem::swap(self, &mut tmp);
            proof {
                use_type_invariant(&tmp);
            }
            let Endpoint {
                local_cid_len,
                supported_versions,
                grease_quic_bit,
                server,
                index,
                incoming_buffers: mut buffers,
                all_incoming_buffers_total_bytes,
                connections,
                min_reset_interval,
                last_stateless_reset,
            } = tmp;
            let ghost b0 = buffers@;
            let mut slot = None;
            std::mem::swap(&mut slot, &mut buffers[i]);
            let mut b = slot.unwrap();
            b.datagrams.push(event);
            b.total_bytes = b.total_bytes + len;
            buffers.set(i, Some(b));
            proof {
                lemma_total_update(b0, i as int, buffers@[i as int]);
                assert(buffers@ =~= b0.update(i as int, buffers@[i as int]));
            }
            *self = Endpoint {
                local_cid_len,
                supported_versions,
                grease_quic_bit,
                server,
                index,
                incoming_buffers: buffers,
                all_incoming_buffers_total_bytes: all + len,
                connections,
                min_reset_interval,
                last_stateless_reset,
            };
            assert(self.spec_buffer_totals() =~= old(self).spec_buffer_totals().update(
                i as int,
                Some((old(self).spec_buffer_totals()[i as int]->Some_0 + len) as u64),
            ));
        }
    }

    /// Register a new incoming connection attempt known by initial destination CID `dst_cid`:
    /// an empty buffer for its datagrams, and a route to it. Nothing is registered if the packet's
    /// reserved bits are invalid. Returns the index of the buffer.
    pub fn handle_first_packet(&mut self, reserved_bits_valid: bool, dst_cid: ConnectionId) -> (r:
        Option<usize>)
        requires
            old(self).spec_server() is Some,
        ensures
            final(self).spec_cid_len() == old(self).spec_cid_len(),
            final(self).spec_versions() == old(self).spec_versions(),
            final(self).spec_server() == old(self).spec_server(),
            final(self).spec_connections() == old(self).spec_connections(),
            final(self).spec_all_total() == old(self).spec_all_total(),
            !reserved_bits_valid ==> r is None && final(self).spec_index() == old(self).spec_index()
                && final(self).spec_buffer_totals() == old(self).spec_buffer_totals(),
            reserved_bits_valid ==> r is Some && r->Some_0 < final(self).spec_buffer_totals().len()
                && (r->Some_0 < old(self).spec_buffer_totals().len() ==> old(
                self,
            ).spec_buffer_totals()[r->Some_0 as int] is None) && final(self).spec_buffer_totals()[r->Some_0 as int]
                == Some(0u64) && final(self).spec_index() == (IndexView {
                initial: old(self).spec_index().initial.insert(
                    dst_cid@,
                    RouteDatagramTo::Incoming(r->Some_0),
                ),
                ..old(self).spec_index()
            }),
    {
        if !reserved_bits_valid {
            return None;
        }
        let mut tmp = Endpoint::new(0, Vec::new(), false, None, 0);
        std::mem::swap(self, &mut tmp);
        proof {
            use_type_invariant(&tmp);
        }
        let Endpoint {
            local_cid_len,
            supported_versions,
            grease_quic_bit,
            server,
            mut index,
            incoming_buffers: mut buffers,
            all_incoming_buffers_total_bytes,
            connections,
            min_reset_interval,
            last_stateless_reset,
        } = tmp;
        let ghost b0 = buffers@;
        let ghost i0 = index.spec_view();
        let buffer = IncomingBuffer { orig_dst_cid: dst_cid, datagrams: Vec::new(), total_bytes: 0 };
        let mut k: usize = 0;
        while k < buffers.len() && buffers[k].is_some()
            invariant
                k <= buffers@.len(),
                buffers@ == b0,
                forall|j: int| 0 <= j < k ==> #[trigger] buffers@[j] is Some,
            decreases buffers@.len() - k,
        {
            k = k + 1;
        }
        if k < buffers.len() {
            buffers.set(k, Some(buffer));
            proof {
                lemma_total_update(b0, k as int, buffers@[k as int]);
            }
        } else {
            buffers.push(Some(buffer));
            proof {
                assert(buffers@.drop_last() =~= b0);
            }
        }
        index.insert_initial_incoming(&dst_cid, k);
        proof {
            assert forall|key: Seq<u8>| #[trigger] index.spec_view().initial.contains_key(key) implies match index.spec_view().initial[key] {
                RouteDatagramTo::Incoming(i) => {
                    &&& server is Some
                    &&& i < buffers@.len()
                    &&& buffers@[i as int] is Some
                    &&& buffers@[i as int]->Some_0.orig_dst_cid@ == key
                },
                RouteDatagramTo::Connection(_) => true,
            } by {
                if key != dst_cid@ {
                    assert(i0.initial.contains_key(key));
                    match i0.initial[key] {
                        RouteDatagramTo::Incoming(i) => {
                            assert(i != k);
                        },
                        _ => {},
                    }
                }
            }
        }
        *self = Endpoint {
            local_cid_len,
            supported_versions,
            grease_quic_bit,
            server,
            index,
            incoming_buffers: buffers,
            all_incoming_buffers_total_bytes,
            connections,
            min_reset_interval,
            last_stateless_reset,
        };
        Some(k)
    }

    /// Remove the buffer of the pending incoming connection with buffer `incoming_idx`, and the
    /// route to it by the initial destination CID recorded with it; returns the buffer
    pub fn take_incoming(&mut self, incoming_idx: usize) -> (r: IncomingBuffer)
        requires
            incoming_idx < old(self).spec_buffer_totals().len(),
            old(self).spec_buffer_totals()[incoming_idx as int] is Some,
        ensures
            final(self).spec_cid_len() == old(self).spec_cid_len(),
            final(self).spec_versions() == old(self).spec_versions(),
            final(self).spec_server() == old(self).spec_server(),
            Some(r.total_bytes) == old(self).spec_buffer_totals()[incoming_idx as int],
            r.orig_dst_cid@ == old(self).spec_buffer_orig_cid(incoming_idx as int),
            final(self).spec_buffer_totals() == old(self).spec_buffer_totals().update(
                incoming_idx as int,
                None,
            ),
            final(self).spec_all_total() == old(self).spec_all_total() - r.total_bytes,
            final(self).spec_index() == (IndexView {
                initial: old(self).spec_index().initial.remove(r.orig_dst_cid@),
                ..old(self).spec_index()
            }),
            final(self).spec_connections() == old(self).spec_connections(),
    {
        let mut tmp = Endpoint::new(0, Vec::new(), false, None, 0);
        std::mem::swap(self, &mut tmp);
        proof {
            use_type_invariant(&tmp);
        }
        let Endpoint {
            local_cid_len,
            supported_versions,
            grease_quic_bit,
            server,
            mut index,
            incoming_buffers: mut buffers,
            all_incoming_buffers_total_bytes,
            connections,
            min_reset_interval,
            last_stateless_reset,
        } = tmp;
        let ghost b0 = buffers@;
        let ghost i0 = index.spec_view();
        let mut slot = None;
        std::mem::swap(&mut slot, &mut buffers[incoming_idx]);
        let b = slot.unwrap();
        proof {
            lemma_total_update(b0, incoming_idx as int, None);
            assert(buffers@ =~= b0.update(incoming_idx as int, None));
        }
        index.remove_initial(&b.orig_dst_cid);
        proof {
            assert forall|key: Seq<u8>| #[trigger] index.spec_view().initial.contains_key(key) implies match index.spec_view().initial[key] {
                RouteDatagramTo::Incoming(i) => {
                    &&& server is Some
                    &&& i < buffers@.len()
                    &&& buffers@[i as int] is Some
                    &&& buffers@[i as int]->Some_0.orig_dst_cid@ == key
                },
                RouteDatagramTo::Connection(_) => true,
            } by {
                assert(i0.initial.contains_key(key));
            }
        }
        *self = Endpoint {
            local_cid_len,
            supported_versions,
            grease_quic_bit,
            server,
            index,
            incoming_buffers: buffers,
            all_incoming_buffers_total_bytes: all_incoming_buffers_total_bytes - b.total_bytes,
            connections,
            min_reset_interval,
            last_stateless_reset,
        };
        assert(self.spec_buffer_totals() =~= old(self).spec_buffer_totals().update(
            incoming_idx as int,
            None,
        ));
        b
    }

    /// Begin accepting the pending incoming connection with buffer `incoming_idx`, whose
    /// Initial packet was authenticated if `decrypted`: its buffer and initial route are
    /// removed; the connection is refused if 3/4 of the CID space is used up, and an
    /// unauthenticated packet is a protocol violation; otherwise the datagrams buffered for it
    /// are returned. No response packet is built for a refusal: the caller gets the error alone.
    pub fn accept_incoming(&mut self, incoming_idx: usize, decrypted: bool) -> (r: Result<
        IncomingBuffer,
        ConnectionError,
    >)
        requires
            incoming_idx < old(self).spec_buffer_totals().len(),
            old(self).spec_buffer_totals()[incoming_idx as int] is Some,
        ensures
            final(self).spec_buffer_totals() == old(self).spec_buffer_totals().update(
                incoming_idx as int,
                None,
            ),
            final(self).spec_cid_len() == old(self).spec_cid_len(),
            final(self).spec_server() == old(self).spec_server(),
            final(self).spec_connections() == old(self).spec_connections(),
            final(self).spec_index() == (IndexView {
                initial: old(self).spec_index().initial.remove(old(self).spec_buffer_orig_cid(incoming_idx as int)),
                ..old(self).spec_index()
            }),
            spec_cids_exhausted(old(self).spec_cid_len() as nat, old(self).spec_index().ids.dom().len())
                ==> r == Err::<IncomingBuffer, ConnectionError>(ConnectionError::CidsExhausted),
            !spec_cids_exhausted(old(self).spec_cid_len() as nat, old(self).spec_index().ids.dom().len())
                && !decrypted ==> (r matches Err(ConnectionError::TransportError(e)) && e.code
                == Code::PROTOCOL_VIOLATION()),
            !spec_cids_exhausted(old(self).spec_cid_len() as nat, old(self).spec_index().ids.dom().len())
                && decrypted ==> (r matches Ok(b) && Some(b.total_bytes)
                == old(self).spec_buffer_totals()[incoming_idx as int] && b.orig_dst_cid@
                == old(self).spec_buffer_orig_cid(incoming_idx as int)),
    {
        let exhausted = self.cids_exhausted();
        let buffer = self.take_incoming(incoming_idx);
        if exhausted {
            return Err(ConnectionError::CidsExhausted);
        }
        if !decrypted {
            return Err(ConnectionError::TransportError(TransportError::PROTOCOL_VIOLATION("authentication failed")));
        }
        Ok(buffer)
    }

    /// Number of pending incoming connections
    pub fn pending_incoming(&self) -> (r: usize)
        ensures
            r == spec_count_pending(self.spec_buffer_totals()),
    {
        let ghost t = self.spec_buffer_totals();
        let mut n: usize = 0;
        let mut i: usize = 0;
        while i < self.incoming_buffers.len()
            invariant
                i <= self.incoming_buffers@.len(),
                t == self.spec_buffer_totals(),
                t.len() == self.incoming_buffers@.len(),
                n == spec_count_pending(t.subrange(0, i as int)),
                n <= i,
            decreases self.incoming_buffers@.len() - i,
        {
            proof {
                assert(t.subrange(0, i + 1) =~= t.subrange(0, i as int).push(t[i as int]));
                assert(t.subrange(0, i + 1).drop_last() =~= t.subrange(0, i as int));
            }
            if self.incoming_buffers[i].is_some() {
                n = n + 1;
            }
            i = i + 1;
        }
        proof {
            assert(t.subrange(0, i as int) =~= t);
        }
        n
    }

    /// Check a connection attempt whose Initial packet has header `header` before anything else
    /// is done with it
    pub fn early_validate_first_packet(&self, header: &ProtectedInitialHeader) -> (r: Result<
        (),
        TransportError,
    >)
        requires
            self.spec_server() is Some,
        ensures
            ({
                let refused = spec_cids_exhausted(
                    self.spec_cid_len() as nat,
                    self.spec_index().ids.dom().len(),
                ) || spec_count_pending(self.spec_buffer_totals())
                    >= self.spec_server()->Some_0.max_incoming;
                let bad_cid = header.dst_cid@.len() < 8 && header.token_pos.start
                    != header.token_pos.end && header.dst_cid@.len() != self.spec_cid_len();
                &&& refused ==> r is Err && r->Err_0.code == Code::CONNECTION_REFUSED()
                &&& !refused && bad_cid ==> r is Err && r->Err_0.code == Code::PROTOCOL_VIOLATION()
                &&& !refused && !bad_cid ==> r is Ok
            }),
    {
        proof {
            use_type_invariant(self);
        }
        let max_incoming = match self.server {
            Some(l) => l.max_incoming,
            None => 0,
        };
        early_validate_first_packet(
            self.cids_exhausted(),
            self.pending_incoming(),
            max_incoming,
            header.dst_cid.len(),
            header.token_pos.start == header.token_pos.end,
            self.local_cid_len,
        )
    }

    /// The connection table, by handle
    pub closed spec fn spec_connections(&self) -> Seq<Option<ConnectionMeta>> {
        self.connections@
    }

    /// The handle the next connection gets: the first free slot of the connection table
    pub fn vacant_handle(&self) -> (r: ConnectionHandle)
        ensures
            r.0 <= self.spec_connections().len(),
            r.0 < self.spec_connections().len() ==> self.spec_connections()[r.0 as int] is None,
            forall|j: int| 0 <= j < r.0 ==> #[trigger] self.spec_connections()[j] is Some,
    {
        let mut i: usize = 0;
        while i < self.connections.len()
            invariant
                i <= self.connections@.len(),
                forall|j: int| 0 <= j < i ==> #[trigger] self.connections@[j] is Some,
            decreases self.connections@.len() - i,
        {
            if self.connections[i].is_none() {
                return ConnectionHandle(i);
            }
            i = i + 1;
        }
        ConnectionHandle(i)
    }

    /// Whether the endpoint knows connection `ch`
    pub fn known_connection(&self, ch: ConnectionHandle) -> (r: bool)
        ensures
            r == (ch.0 < self.spec_connections().len() && self.spec_connections()[ch.0 as int] is Some),
    {
        ch.0 < self.connections.len() && self.connections[ch.0].is_some()
    }

    /// Number of local CIDs issued to connection `ch`, if the endpoint knows it
    pub fn cids_issued(&self, ch: ConnectionHandle) -> (r: Option<u64>)
        ensures
            r == if ch.0 < self.spec_connections().len() && self.spec_connections()[ch.0 as int] is Some {
                Some(self.spec_connections()[ch.0 as int]->Some_0.cids_issued)
            } else {
                None::<u64>
            },
    {
        if ch.0 < self.connections.len() {
            match &self.connections[ch.0] {
                Some(m) => Some(m.cids_issued),
                None => None,
            }
        } else {
            None
        }
    }

    /// Number of connections the endpoint knows
    pub fn known_connections(&self) -> (r: usize)
        ensures
            r == spec_count_known(self.spec_connections()),
    {
        let mut n: usize = 0;
        let mut i: usize = 0;
        while i < self.connections.len()
            invariant
                i <= self.connections@.len(),
                n == spec_count_known(self.connections@.subrange(0, i as int)),
                n <= i,
            decreases self.connections@.len() - i,
        {
            proof {
                let s = self.connections@;
                assert(s.subrange(0, i + 1) =~= s.subrange(0, i as int).push(s[i as int]));
                assert(s.subrange(0, i + 1).drop_last() =~= s.subrange(0, i as int));
            }
            if self.connections[i].is_some() {
                n = n + 1;
            }
            i = i + 1;
        }
        proof {
            assert(self.connections@.subrange(0, i as int) =~= self.connections@);
        }
        n
    }

    /// Number of local connection IDs routed to connections
    pub fn known_cids(&self) -> (r: usize)
        ensures
            r == self.spec_index().ids.dom().len(),
    {
        self.index.connection_ids_len()
    }

    /// Route local connection ID `cid` to connection `ch` if it is free; returns whether the
    /// CID may be used: a zero-length CID needs no route, and a taken one is refused
    pub fn claim_cid(&mut self, ch: ConnectionHandle, cid: &ConnectionId) -> (r: bool)
        ensures
            r == (cid@.len() == 0 || !old(self).spec_index().ids.contains_key(cid@)),
            final(self).spec_index() == if cid@.len() != 0 && r {
                IndexView { ids: old(self).spec_index().ids.insert(cid@, ch), ..old(self).spec_index() }
            } else {
                old(self).spec_index()
            },
            final(self).spec_connections() == old(self).spec_connections(),
            final(self).spec_cid_len() == old(self).spec_cid_len(),
            final(self).spec_server() == old(self).spec_server(),
            final(self).spec_buffer_totals() == old(self).spec_buffer_totals(),
    {
        if cid.len() == 0 {
            return true;
        }
        let key = cid.to_vec();
        if self.index.connection_ids.get(key.as_slice()).is_some() {
            return false;
        }
        let mut p = self.take_parts();
        p.index.connection_ids.insert(key, ch);
        self.put_parts(p);
        true
    }

    /// Record a new connection `ch`, in the first free slot of the table, with its initial
    /// destination CID, its first local CID and the local CID of its preferred address, and
    /// route datagrams to it by its local CID, or by its addresses for a zero-length CID
    pub fn add_connection(
        &mut self,
        ch: ConnectionHandle,
        init_cid: ConnectionId,
        loc_cid: ConnectionId,
        pref_addr_cid: Option<ConnectionId>,
        addresses: FourTuple,
        side: Side,
    )
        requires
            ch.0 <= old(self).spec_connections().len(),
            ch.0 < old(self).spec_connections().len() ==> old(self).spec_connections()[ch.0 as int] is None,
            old(self).spec_connections().len() < usize::MAX,
        ensures
            ({
                let meta = ConnectionMeta {
                    init_cid,
                    cids_issued: if pref_addr_cid is Some { 2u64 } else { 1u64 },
                    loc_cids: final(self).spec_connections()[ch.0 as int]->Some_0.loc_cids,
                    addresses,
                    reset_token: None,
                };
                final(self).spec_connections() == if ch.0 == old(self).spec_connections().len() {
                    old(self).spec_connections().push(Some(meta))
                } else {
                    old(self).spec_connections().update(ch.0 as int, Some(meta))
                }
            }),
            final(self).spec_connections()[ch.0 as int]->Some_0.loc_cids@ == match pref_addr_cid {
                Some(p) => seq![(0u64, loc_cid), (1u64, p)],
                None => seq![(0u64, loc_cid)],
            },
            loc_cid@.len() != 0 ==> final(self).spec_index() == (IndexView {
                ids: old(self).spec_index().ids.insert(loc_cid@, ch),
                ..old(self).spec_index()
            }),
            loc_cid@.len() == 0 && side == Side::Server ==> final(self).spec_index() == (IndexView {
                incoming: old(self).spec_index().incoming.insert(spec_four_tuple_key(addresses), ch),
                ..old(self).spec_index()
            }),
            loc_cid@.len() == 0 && side == Side::Client ==> final(self).spec_index() == (IndexView {
                outgoing: old(self).spec_index().outgoing.insert(spec_addr_key(addresses.remote), ch),
                ..old(self).spec_index()
            }),
            final(self).spec_cid_len() == old(self).spec_cid_len(),
            final(self).spec_server() == old(self).spec_server(),
            final(self).spec_buffer_totals() == old(self).spec_buffer_totals(),
            final(self).spec_all_total() == old(self).spec_all_total(),
    {
        let mut loc_cids: Vec<(u64, ConnectionId)> = Vec::new();
        loc_cids.push((0, loc_cid));
        let mut cids_issued: u64 = 1;
        match pref_addr_cid {
            Some(p) => {
                loc_cids.push((1, p));
                cids_issued = 2;
            },
            None => {},
        }
        let meta = ConnectionMeta { init_cid, cids_issued, loc_cids, addresses, reset_token: None };
        let mut p = self.take_parts();
        let ghost c0 = p.connections@;
        let ghost i0 = p.index.spec_view();
        if ch.0 == p.connections.len() {
            p.connections.push(Some(meta));
        } else {
            p.connections.set(ch.0, Some(meta));
        }
        p.index.insert_conn(&addresses, &loc_cid, ch, side);
        self.put_parts(p);
    }

    /// Process an event reported by connection `ch`: a drained connection is forgotten, a
    /// new reset token replaces the connection's previous one, and a retired local CID stops
    /// routing; returns the local CIDs the connection needs, if any
    pub fn handle_event(&mut self, ch: ConnectionHandle, event: EndpointEvent) -> (r: Option<
        IdentifierRequest,
    >)
        requires
            !(event is Drained) ==> ch.0 < old(self).spec_connections().len()
                && old(self).spec_connections()[ch.0 as int] is Some,
        ensures
            final(self).spec_cid_len() == old(self).spec_cid_len(),
            final(self).spec_server() == old(self).spec_server(),
            final(self).spec_buffer_totals() == old(self).spec_buffer_totals(),
            final(self).spec_all_total() == old(self).spec_all_total(),
            event is Drained && spec_ids_tracked(old(self).spec_index(), old(self).spec_connections())
                ==> spec_ids_tracked(final(self).spec_index(), final(self).spec_connections()),
            ({
                let conns = old(self).spec_connections();
                let idx = old(self).spec_index();
                match event {
                    EndpointEvent::NeedIdentifiers { now, n } => {
                        r == Some(IdentifierRequest { now, count: n }) && *final(self) == *old(self)
                    },
                    EndpointEvent::Drained => if ch.0 < conns.len() && conns[ch.0 as int] is Some {
                        &&& r is None
                        &&& final(self).spec_connections() == conns.update(ch.0 as int, None)
                        &&& spec_index_without(idx, final(self).spec_index(), conns[ch.0 as int]->Some_0)
                    } else {
                        r is None && *final(self) == *old(self)
                    },
                    EndpointEvent::ResetToken { remote, token } => {
                        let meta = conns[ch.0 as int]->Some_0;
                        let kept = match meta.reset_token {
                            Some((r0, t0)) => idx.reset_tokens.remove(spec_addr_key(r0) + t0@),
                            None => idx.reset_tokens,
                        };
                        &&& r is None
                        &&& final(self).spec_connections() == conns.update(
                            ch.0 as int,
                            Some(ConnectionMeta { reset_token: Some((remote, token)), ..meta }),
                        )
                        &&& final(self).spec_index() == (IndexView {
                            reset_tokens: kept.insert(spec_addr_key(remote) + token@, ch),
                            ..idx
                        })
                    },
                    EndpointEvent::RetireConnectionId { now, seq, allow_more_cids } => {
                        let meta = conns[ch.0 as int]->Some_0;
                        match spec_find_seq(meta.loc_cids@, seq) {
                            Some(i) => {
                                let post = final(self).spec_connections()[ch.0 as int]->Some_0;
                                &&& r == if allow_more_cids {
                                    Some(IdentifierRequest { now, count: 1 })
                                } else {
                                    None
                                }
                                &&& final(self).spec_connections() == conns.update(
                                    ch.0 as int,
                                    Some(ConnectionMeta { loc_cids: post.loc_cids, ..meta }),
                                )
                                &&& post.loc_cids@ == meta.loc_cids@.remove(i)
                                &&& final(self).spec_index() == (IndexView {
                                    ids: idx.ids.remove(meta.loc_cids@[i].1@),
                                    ..idx
                                })
                            },
                            None => r is None && *final(self) == *old(self),
                        }
                    },
                }
            }),
    {
        match event {
            EndpointEvent::NeedIdentifiers { now, n } => Some(IdentifierRequest { now, count: n }),
            EndpointEvent::Drained => {
                if ch.0 < self.connections.len() && self.connections[ch.0].is_some() {
                    let mut p = self.take_parts();
                    let ghost i0 = p.index.spec_view();
                    let ghost c0 = p.connections@;
                    let mut slot = None;
                    std::mem::swap(&mut slot, &mut p.connections[ch.0]);
                    let meta = slot.unwrap();
                    p.index.remove(&meta);
                    proof {
                        assert(p.connections@ =~= c0.update(ch.0 as int, None));
                        assert forall|k: Seq<u8>| #[trigger] p.index.spec_view().initial.contains_key(k) implies i0.initial.contains_key(k) && p.index.spec_view().initial[k] == i0.initial[k] by {}
                    }
                    self.put_parts(p);
                    proof {
                        if spec_ids_tracked(i0, c0) {
                            lemma_drain_keeps_tracked(i0, self.spec_index(), c0, ch);
                        }
                    }
                }
                None
            },
            EndpointEvent::ResetToken { remote, token } => {
                let mut p = self.take_parts();
                let ghost c0 = p.connections@;
                let mut slot = None;
                std::mem::swap(&mut slot, &mut p.connections[ch.0]);
                let mut meta = slot.unwrap();
                let previous = meta.reset_token;
                meta.reset_token = Some((remote, token));
                match previous {
                    Some((r0, t0)) => {
                        p.index.connection_reset_tokens.remove(&r0, &t0);
                    },
                    None => {},
                }
                p.index.connection_reset_tokens.insert(&remote, &token, ch);
                p.connections.set(ch.0, Some(meta));
                proof {
                    assert(p.connections@ =~= c0.update(
                        ch.0 as int,
                        Some(ConnectionMeta { reset_token: Some((remote, token)), ..c0[ch.0 as int]->Some_0 }),
                    ));
                }
                self.put_parts(p);
                None
            },
            EndpointEvent::RetireConnectionId { now, seq, allow_more_cids } => {
                let found = self.find_seq(ch, seq);
                match found {
                    None => None,
                    Some(i) => {
                        let mut p = self.take_parts();
                        let ghost c0 = p.connections@;
                        let ghost i0 = p.index.spec_view();
                        let mut slot = None;
                        std::mem::swap(&mut slot, &mut p.connections[ch.0]);
                        let mut meta = slot.unwrap();
                        let ghost m0 = meta;
                        let (_, cid) = meta.loc_cids.remove(i);
                        assert(meta.loc_cids@ == m0.loc_cids@.remove(i as int));
                        assert(cid == m0.loc_cids@[i as int].1);
                        p.index.retire(&cid);
                        assert(p.index.spec_view() == (IndexView { ids: i0.ids.remove(cid@), ..i0 }));
                        p.connections.set(ch.0, Some(meta));
                        proof {
                            assert(p.connections@ =~= c0.update(
                                ch.0 as int,
                                Some(ConnectionMeta { loc_cids: p.connections@[ch.0 as int]->Some_0.loc_cids, ..c0[ch.0 as int]->Some_0 }),
                            ));
                            assert forall|k: Seq<u8>| #[trigger] p.index.spec_view().initial.contains_key(k) implies i0.initial.contains_key(k) by {}
                        }
                        self.put_parts(p);
                        if allow_more_cids {
                            Some(IdentifierRequest { now, count: 1 })
                        } else {
                            None
                        }
                    },
                }
            },
        }
    }

    /// The first position of sequence number `seq` among the local CIDs of connection `ch`
    fn find_seq(&self, ch: ConnectionHandle, seq: u64) -> (r: Option<usize>)
        requires
            ch.0 < self.spec_connections().len(),
            self.spec_connections()[ch.0 as int] is Some,
        ensures
            r is None <==> spec_find_seq(self.spec_connections()[ch.0 as int]->Some_0.loc_cids@, seq) is None,
            r matches Some(i) ==> spec_find_seq(self.spec_connections()[ch.0 as int]->Some_0.loc_cids@, seq)
                == Some(i as int) && i < self.spec_connections()[ch.0 as int]->Some_0.loc_cids@.len(),
    {
        let slot = &self.connections[ch.0];
        let meta = match slot {
            Some(m) => m,
            None => {
                return None;
            },
        };
        let ghost loc = meta.loc_cids@;
        assert(loc == self.spec_connections()[ch.0 as int]->Some_0.loc_cids@);
        let mut i: usize = 0;
        while i < meta.loc_cids.len()
            invariant
                i <= loc.len(),
                loc == meta.loc_cids@,
                ch.0 < self.spec_connections().len(),
                loc == self.spec_connections()[ch.0 as int]->Some_0.loc_cids@,
                forall|j: int| 0 <= j < i ==> #[trigger] loc[j].0 != seq,
            decreases loc.len() - i,
        {
            if meta.loc_cids[i].0 == seq {
                proof {
                    assert(loc[i as int].0 == seq);
                    let c = choose|k: int| 0 <= k < loc.len() && #[trigger] loc[k].0 == seq && forall|j: int| 0 <= j < k ==> loc[j].0 != seq;
                    if c < i {
                    } else if c > i {
                        assert(loc[i as int].0 != seq);
                    }
                }
                return Some(i);
            }
            i = i + 1;
        }
        None
    }

    /// Hand out local CIDs `ids`, already routed to connection `ch`, with the next sequence
    /// numbers of the connection and their reset tokens by `reset_key`
    pub fn issue_identifiers<K: HmacKey>(&mut self, ch: ConnectionHandle, ids: Vec<ConnectionId>, reset_key: &K) -> (r:
        Vec<IssuedCid>)
        requires
            ch.0 < old(self).spec_connections().len(),
            old(self).spec_connections()[ch.0 as int] is Some,
            old(self).spec_connections()[ch.0 as int]->Some_0.cids_issued + ids@.len() <= u64::MAX,
        ensures
            ({
                let meta = old(self).spec_connections()[ch.0 as int]->Some_0;
                let post = final(self).spec_connections()[ch.0 as int]->Some_0;
                &&& r@.len() == ids@.len()
                &&& forall|i: int| 0 <= i < ids@.len() ==> {
                    &&& #[trigger] r@[i].sequence == meta.cids_issued + i
                    &&& r@[i].id == ids@[i]
                    &&& r@[i].reset_token@.len() == RESET_TOKEN_SIZE
                }
                &&& final(self).spec_connections() == old(self).spec_connections().update(
                    ch.0 as int,
                    Some(ConnectionMeta {
                        cids_issued: (meta.cids_issued + ids@.len()) as u64,
                        loc_cids: post.loc_cids,
                        ..meta
                    }),
                )
                &&& post.loc_cids@ == meta.loc_cids@ + Seq::new(
                    ids@.len(),
                    |i: int| ((meta.cids_issued + i) as u64, ids@[i]),
                )
            }),
            final(self).spec_index() == old(self).spec_index(),
            final(self).spec_cid_len() == old(self).spec_cid_len(),
            final(self).spec_server() == old(self).spec_server(),
            final(self).spec_buffer_totals() == old(self).spec_buffer_totals(),
    {
        let mut p = self.take_parts();
        let ghost c0 = p.connections@;
        let mut slot = None;
        std::mem::swap(&mut slot, &mut p.connections[ch.0]);
        let mut meta = slot.unwrap();
        let ghost m0 = meta;
        let mut out: Vec<IssuedCid> = Vec::new();
        let mut i: usize = 0;
        while i < ids.len()
            invariant
                i <= ids@.len(),
                m0.cids_issued + ids@.len() <= u64::MAX,
                meta.cids_issued == m0.cids_issued + i,
                meta == (ConnectionMeta { cids_issued: meta.cids_issued, loc_cids: meta.loc_cids, ..m0 }),
                meta.loc_cids@ == m0.loc_cids@ + Seq::new(i as nat, |j: int| ((m0.cids_issued + j) as u64, ids@[j])),
                out@.len() == i,
                forall|j: int| 0 <= j < i ==> {
                    &&& #[trigger] out@[j].sequence == m0.cids_issued + j
                    &&& out@[j].id == ids@[j]
                    &&& out@[j].reset_token@.len() == RESET_TOKEN_SIZE
                },
            decreases ids@.len() - i,
        {
            let id = ids[i];
            let sequence = meta.cids_issued;
            meta.cids_issued = sequence + 1;
            meta.loc_cids.push((sequence, id));
            let reset_token = ResetToken::new(reset_key, &id);
            out.push(IssuedCid { sequence, id, reset_token });
            i = i + 1;
            proof {
                assert(meta.loc_cids@ =~= m0.loc_cids@ + Seq::new(i as nat, |j: int| ((m0.cids_issued + j) as u64, ids@[j])));
            }
        }
        p.connections.set(ch.0, Some(meta));
        proof {
            assert(p.connections@ =~= c0.update(ch.0 as int, Some(meta)));
        }
        self.put_parts(p);
        out
    }

    /// Initiate a connection to `remote` with client configuration `config`, whose initial
    /// destination CID is `remote_id`, with local CID `loc_cid` (found with
    /// [`Endpoint::claim_cid`]): a QUIC version the TLS layer does not know is refused, and
    /// nothing changes; otherwise the connection gets the first free handle and is recorded as a
    /// client's, and the handle and the transport parameters to announce are returned
    pub fn connect(
        &mut self,
        config: &ClientConfig,
        remote: SocketAddr,
        remote_id: ConnectionId,
        loc_cid: ConnectionId,
    ) -> (r: Result<(ConnectionHandle, TransportParameters), ConnectError>)
        requires
            old(self).spec_connections().len() < usize::MAX,
        ensures
            !spec_version_known(config.version) ==> r == Err::<
                (ConnectionHandle, TransportParameters),
                ConnectError,
            >(ConnectError::UnsupportedVersion) && *final(self) == *old(self),
            spec_version_known(config.version) ==> (r matches Ok(res) && {
                let (ch, params) = res;
                let conns = old(self).spec_connections();
                let addresses = FourTuple { remote, local_ip: None };
                let meta = ConnectionMeta {
                    init_cid: remote_id,
                    cids_issued: 1,
                    loc_cids: final(self).spec_connections()[ch.0 as int]->Some_0.loc_cids,
                    addresses,
                    reset_token: None,
                };
                &&& ch.0 <= conns.len()
                &&& ch.0 < conns.len() ==> conns[ch.0 as int] is None
                &&& forall|j: int| 0 <= j < ch.0 ==> #[trigger] conns[j] is Some
                &&& params.spec_view() == TransportParameters::spec_new_view(
                    &config.transport,
                    old(self).spec_cid_len(),
                    loc_cid,
                )
                &&& final(self).spec_connections() == if ch.0 == conns.len() {
                    conns.push(Some(meta))
                } else {
                    conns.update(ch.0 as int, Some(meta))
                }
                &&& final(self).spec_connections()[ch.0 as int]->Some_0.loc_cids@ == seq![(0u64, loc_cid)]
                &&& loc_cid@.len() != 0 ==> final(self).spec_index() == (IndexView {
                    ids: old(self).spec_index().ids.insert(loc_cid@, ch),
                    ..old(self).spec_index()
                })
                &&& loc_cid@.len() == 0 ==> final(self).spec_index() == (IndexView {
                    outgoing: old(self).spec_index().outgoing.insert(spec_addr_key(remote), ch),
                    ..old(self).spec_index()
                })
            }),
            final(self).spec_cid_len() == old(self).spec_cid_len(),
            final(self).spec_server() == old(self).spec_server(),
            final(self).spec_buffer_totals() == old(self).spec_buffer_totals(),
    {
        match interpret_version(config.version) {
            Ok(_) => {},
            Err(_) => {
                return Err(ConnectError::UnsupportedVersion);
            },
        }
        let ch = self.vacant_handle();
        let cid_len = self.local_cid_len;
        let params = TransportParameters::new(&config.transport, cid_len, loc_cid);
        let addresses = FourTuple { remote, local_ip: None };
        self.add_connection(ch, remote_id, loc_cid, None, addresses, Side::Client);
        Ok((ch, params))
    }

    /// Route Initial and 0-RTT packets with destination CID `init_cid`, the connection's
    /// initial one, to connection `ch`
    pub fn route_initial(&mut self, ch: ConnectionHandle, init_cid: &ConnectionId)
        ensures
            final(self).spec_index() == (IndexView {
                initial: old(self).spec_index().initial.insert(init_cid@, RouteDatagramTo::Connection(ch)),
                ..old(self).spec_index()
            }),
            final(self).spec_connections() == old(self).spec_connections(),
            final(self).spec_cid_len() == old(self).spec_cid_len(),
            final(self).spec_server() == old(self).spec_server(),
            final(self).spec_buffer_totals() == old(self).spec_buffer_totals(),
    {
        let mut p = self.take_parts();
        let ghost i0 = p.index.spec_view();
        p.index.insert_initial(init_cid, ch);
        proof {
            assert forall|key: Seq<u8>| #[trigger] p.index.spec_view().initial.contains_key(key) && key != init_cid@ implies i0.initial.contains_key(key) by {}
        }
        self.put_parts(p);
    }
}

/// The `i`th four bytes of the encoding of `vs` are the `i`th version
proof fn lemma_be32_all_index(vs: Seq<u32>, i: int)
    requires
        0 <= i < vs.len(),
    ensures
        spec_be32_all(vs).len() == 4 * vs.len(),
        spec_be32_all(vs).subrange(4 * i, 4 * i + 4) == be32(vs[i]),
    decreases vs.len(),
{
    lemma_be32_all_len(vs.drop_last());
    if i < vs.len() - 1 {
        lemma_be32_all_index(vs.drop_last(), i);
        assert(spec_be32_all(vs).subrange(4 * i, 4 * i + 4) =~= spec_be32_all(vs.drop_last()).subrange(
            4 * i,
            4 * i + 4,
        ));
    } else {
        assert(spec_be32_all(vs).subrange(4 * i, 4 * i + 4) =~= be32(vs[i]));
    }
}

/// The encoding of `vs` has four bytes per version
proof fn lemma_be32_all_len(vs: Seq<u32>)
    ensures
        spec_be32_all(vs).len() == 4 * vs.len(),
    decreases vs.len(),
{
    if vs.len() > 0 {
        lemma_be32_all_len(vs.drop_last());
    }
}

/// A version negotiation packet offers every version the endpoint supports: its payload, the
/// reserved version followed by the supported versions, read as four-byte versions, holds each
/// of them
pub proof fn lemma_version_negotiation_offers(version: u32, versions: Seq<u32>, v: u32)
    requires
        versions.contains(v),
    ensures
        crate::connection::spec_version_offered(
            be32(spec_grease_version(version)) + spec_be32_all(versions),
            v,
        ),
{
    let i = choose|i: int| 0 <= i < versions.len() && versions[i] == v;
    let payload = be32(spec_grease_version(version)) + spec_be32_all(versions);
    lemma_be32_all_index(versions, i);
    assert(payload.subrange(4 * (i + 1), 4 * (i + 1) + 4) =~= spec_be32_all(versions).subrange(
        4 * i,
        4 * i + 4,
    ));
    crate::coding::lemma_be32_roundtrip(v);
    assert(crate::coding::from_be32(payload.subrange(4 * (i + 1), 4 * (i + 1) + 4)) == v);
}

} // verus!
