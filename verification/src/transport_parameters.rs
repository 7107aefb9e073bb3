//! Transport parameters negotiated between peers during the handshake (RFC 9000, section 18).
use vstd::prelude::*;

use crate::coding::{be16, put_slice, put_u16};
use crate::shared::{ConnectionId, MAX_CID_SIZE};
use crate::token::{ResetToken, RESET_TOKEN_SIZE};
use crate::varint::{
    read_var_at, spec_varint_decode, spec_varint_encode, spec_varint_size, write_var, VarInt,
    VARINT_BOUND,
};
use crate::cid_queue::CID_QUEUE_LEN;
use crate::config::TransportConfig;
use crate::transport_error::{Code, Error as TransportError};
use crate::{Side, LOC_CID_COUNT, MAX_STREAM_COUNT, TIMER_GRANULARITY};

verus! {

/// Number of transport parameters having integer values
pub const INT_PARAM_COUNT: usize = 11;

/// Identifier of the `k`th integer transport parameter
pub open spec fn spec_int_code(k: int) -> u64 {
    if k == 0 {
        0x01
    } else if k == 1 {
        0x03
    } else if k == 2 {
        0x04
    } else if k == 3 {
        0x05
    } else if k == 4 {
        0x06
    } else if k == 5 {
        0x07
    } else if k == 6 {
        0x08
    } else if k == 7 {
        0x09
    } else if k == 8 {
        0x0a
    } else if k == 9 {
        0x0b
    } else {
        0x0e
    }
}

/// Default value of the `k`th integer transport parameter, used if the peer does not supply it
pub open spec fn spec_int_default(k: int) -> u64 {
    if k == 1 {
        65527
    } else if k == 8 {
        3
    } else if k == 9 {
        25
    } else if k == 10 {
        2
    } else {
        0
    }
}

/// Identifier of the `k`th integer transport parameter
pub fn int_code(k: usize) -> (r: u64)
    requires
        k < INT_PARAM_COUNT,
    ensures
        r == spec_int_code(k as int),
{
    if k == 0 {
        0x01
    } else if k == 1 {
        0x03
    } else if k == 2 {
        0x04
    } else if k == 3 {
        0x05
    } else if k == 4 {
        0x06
    } else if k == 5 {
        0x07
    } else if k == 6 {
        0x08
    } else if k == 7 {
        0x09
    } else if k == 8 {
        0x0a
    } else if k == 9 {
        0x0b
    } else {
        0x0e
    }
}

/// Default value of the `k`th integer transport parameter
pub fn int_default(k: usize) -> (r: u64)
    requires
        k < INT_PARAM_COUNT,
    ensures
        r == spec_int_default(k as int),
{
    if k == 1 {
        65527
    } else if k == 8 {
        3
    } else if k == 9 {
        25
    } else if k == 10 {
        2
    } else {
        0
    }
}

/// Index of the integer transport parameter with identifier `id`, if any
pub open spec fn spec_int_index(id: u64) -> Option<int> {
    if id == 0x01 {
        Some(0)
    } else if id == 0x03 {
        Some(1)
    } else if id == 0x04 {
        Some(2)
    } else if id == 0x05 {
        Some(3)
    } else if id == 0x06 {
        Some(4)
    } else if id == 0x07 {
        Some(5)
    } else if id == 0x08 {
        Some(6)
    } else if id == 0x09 {
        Some(7)
    } else if id == 0x0a {
        Some(8)
    } else if id == 0x0b {
        Some(9)
    } else if id == 0x0e {
        Some(10)
    } else {
        None
    }
}

/// Index of the integer transport parameter with identifier `id`, if any
fn int_index(id: u64) -> (r: Option<usize>)
    ensures
        match spec_int_index(id) {
            Some(k) => r == Some(k as usize),
            None => r is None,
        },
{
    if id == 0x01 {
        Some(0)
    } else if id == 0x03 {
        Some(1)
    } else if id == 0x04 {
        Some(2)
    } else if id == 0x05 {
        Some(3)
    } else if id == 0x06 {
        Some(4)
    } else if id == 0x07 {
        Some(5)
    } else if id == 0x08 {
        Some(6)
    } else if id == 0x09 {
        Some(7)
    } else if id == 0x0a {
        Some(8)
    } else if id == 0x0b {
        Some(9)
    } else if id == 0x0e {
        Some(10)
    } else {
        None
    }
}

/// An IPv4 socket address: four address bytes and a port
#[derive(Debug, Copy, Clone, PartialEq, Eq)]
pub struct SocketAddrV4 {
    /// Address bytes
    pub ip: [u8; 4],
    /// Port
    pub port: u16,
}

/// An IPv6 socket address: sixteen address bytes and a port
#[derive(Debug, Copy, Clone, PartialEq, Eq)]
pub struct SocketAddrV6 {
    /// Address bytes
    pub ip: [u8; 16],
    /// Port
    pub port: u16,
}

/// A server's preferred address
///
/// This is communicated as a transport parameter during TLS session establishment.
#[derive(Debug, Copy, Clone)]
pub struct PreferredAddress {
    /// IPv4 address, if any
    pub address_v4: Option<SocketAddrV4>,
    /// IPv6 address, if any
    pub address_v6: Option<SocketAddrV6>,
    /// Connection ID to use at the preferred address
    pub connection_id: ConnectionId,
    /// Stateless reset token for that connection ID
    pub stateless_reset_token: ResetToken,
}

/// Abstract value of a [`PreferredAddress`]
pub struct PreferredAddressView {
    pub v4: Option<(Seq<u8>, u16)>,
    pub v6: Option<(Seq<u8>, u16)>,
    pub cid: Seq<u8>,
    pub token: Seq<u8>,
}

impl PreferredAddress {
    /// Abstract value
    pub open spec fn spec_view(self) -> PreferredAddressView {
        PreferredAddressView {
            v4: match self.address_v4 {
                Some(a) => Some((a.ip@, a.port)),
                None => None,
            },
            v6: match self.address_v6 {
                Some(a) => Some((a.ip@, a.port)),
                None => None,
            },
            cid: self.connection_id@,
            token: self.stateless_reset_token@,
        }
    }
}

/// Four zero bytes, the unspecified IPv4 address
pub open spec fn spec_zeros(n: nat) -> Seq<u8> {
    Seq::new(n, |i: int| 0u8)
}

/// Wire encoding of a preferred address: the IPv4 address and port (zeros if absent), the IPv6
/// address and port (zeros if absent), the connection ID prefixed by its length, and the reset
/// token
pub open spec fn spec_pa_write(pa: PreferredAddressView) -> Seq<u8> {
    let (ip4, port4) = match pa.v4 {
        Some(a) => a,
        None => (spec_zeros(4), 0u16),
    };
    let (ip6, port6) = match pa.v6 {
        Some(a) => a,
        None => (spec_zeros(16), 0u16),
    };
    ip4 + be16(port4) + ip6 + be16(port6) + seq![pa.cid.len() as u8] + pa.cid + pa.token
}

/// Errors encountered while decoding `TransportParameters`
#[derive(Debug, Copy, Clone, PartialEq, Eq, Structural)]
pub enum Error {
    /// Parameters that are semantically invalid
    IllegalValue,
    /// Catch-all error for problems while decoding transport parameters
    Malformed,
}

impl Error {
    /// The `TRANSPORT_PARAMETER_ERROR` transport error that reports this error
    pub fn into_transport_error(self) -> (e: TransportError)
        ensures
            e.code == Code::TRANSPORT_PARAMETER_ERROR(),
            e.frame is None,
            e.reason@ == match self {
                Error::IllegalValue => "illegal value"@,
                Error::Malformed => "malformed"@,
            },
    {
        match self {
            Error::IllegalValue => TransportError::TRANSPORT_PARAMETER_ERROR("illegal value"),
            Error::Malformed => TransportError::TRANSPORT_PARAMETER_ERROR("malformed"),
        }
    }
}

/// Decoding of a preferred address from `s`, which holds the bytes of the parameter: the
/// address and the number of bytes read
pub open spec fn spec_pa_read(s: Seq<u8>) -> Result<(PreferredAddressView, nat), Error> {
    if s.len() < 25 {
        Err(Error::Malformed)
    } else {
        let cid_len = s[24] as nat;
        if s.len() - 25 < cid_len || cid_len > MAX_CID_SIZE {
            Err(Error::Malformed)
        } else if s.len() - 25 - cid_len < 16 {
            Err(Error::Malformed)
        } else {
            let ip4 = s.subrange(0, 4);
            let port4 = crate::coding::from_be16(s.subrange(4, 6));
            let ip6 = s.subrange(6, 22);
            let port6 = crate::coding::from_be16(s.subrange(22, 24));
            let v4 = if ip4 == spec_zeros(4) && port4 == 0 {
                None
            } else {
                Some((ip4, port4))
            };
            let v6 = if ip6 == spec_zeros(16) && port6 == 0 {
                None
            } else {
                Some((ip6, port6))
            };
            if v4 is None && v6 is None {
                Err(Error::IllegalValue)
            } else {
                Ok(
                    (
                        PreferredAddressView {
                            v4,
                            v6,
                            cid: s.subrange(25, (25 + cid_len) as int),
                            token: s.subrange((25 + cid_len) as int, (25 + cid_len + 16) as int),
                        },
                        25 + cid_len + 16,
                    ),
                )
            }
        }
    }
}

/// Transport parameters used to negotiate connection-level preferences between peers
#[derive(Debug, Copy, Clone)]
pub struct TransportParameters {
    /// Milliseconds, disabled if zero
    pub max_idle_timeout: VarInt,
    /// Limits the size of UDP payloads that the endpoint is willing to receive
    pub max_udp_payload_size: VarInt,
    /// Initial value for the maximum amount of data that can be sent on the connection
    pub initial_max_data: VarInt,
    /// Initial flow control limit for locally-initiated bidirectional streams
    pub initial_max_stream_data_bidi_local: VarInt,
    /// Initial flow control limit for peer-initiated bidirectional streams
    pub initial_max_stream_data_bidi_remote: VarInt,
    /// Initial flow control limit for unidirectional streams
    pub initial_max_stream_data_uni: VarInt,
    /// Initial maximum number of bidirectional streams the peer may initiate
    pub initial_max_streams_bidi: VarInt,
    /// Initial maximum number of unidirectional streams the peer may initiate
    pub initial_max_streams_uni: VarInt,
    /// Exponent used to decode the ACK Delay field in the ACK frame
    pub ack_delay_exponent: VarInt,
    /// Maximum amount of time in milliseconds by which the endpoint will delay sending
    /// acknowledgments
    pub max_ack_delay: VarInt,
    /// Maximum number of connection IDs from the peer that an endpoint is willing to store
    pub active_connection_id_limit: VarInt,
    /// Does the endpoint support active connection migration
    pub disable_active_migration: bool,
    /// Maximum size for datagram frames
    pub max_datagram_frame_size: Option<VarInt>,
    /// The value that the endpoint included in the Source Connection ID field of the first
    /// Initial packet it sends for the connection
    pub initial_src_cid: Option<ConnectionId>,
    /// The endpoint is willing to receive QUIC packets containing any value for the fixed bit
    pub grease_quic_bit: bool,
    /// Minimum amount of time in microseconds by which the endpoint is able to delay sending
    /// acknowledgments
    pub min_ack_delay: Option<VarInt>,
    /// The value of the Destination Connection ID field from the first Initial packet sent by
    /// the client
    pub original_dst_cid: Option<ConnectionId>,
    /// The value that the server included in the Source Connection ID field of a Retry packet
    pub retry_src_cid: Option<ConnectionId>,
    /// Token used by the client to verify a stateless reset from the server
    pub stateless_reset_token: Option<ResetToken>,
    /// The server's preferred address for communication after handshake completion
    pub preferred_address: Option<PreferredAddress>,
}

/// Abstract value of [`TransportParameters`]; the integer parameters in identifier order
pub struct TransportParametersView {
    pub ints: Seq<u64>,
    pub disable_active_migration: bool,
    pub max_datagram_frame_size: Option<u64>,
    pub initial_src_cid: Option<Seq<u8>>,
    pub grease_quic_bit: bool,
    pub min_ack_delay: Option<u64>,
    pub original_dst_cid: Option<Seq<u8>>,
    pub retry_src_cid: Option<Seq<u8>>,
    pub stateless_reset_token: Option<Seq<u8>>,
    pub preferred_address: Option<PreferredAddressView>,
}

/// Each integer transport parameter is written and read under its identifier of RFC 9000,
/// section 18.2: the identifier the writer uses for a field is the one the reader maps back to
/// that field
pub proof fn lemma_int_parameter_ids(p: TransportParameters)
    ensures
        ({
            let ints = p.spec_view().ints;
            let field = |id: u64| ints[spec_int_index(id)->Some_0];
            &&& forall|k: int| 0 <= k < INT_PARAM_COUNT ==> spec_int_index(#[trigger] spec_int_code(k))
                == Some(k)
            &&& field(0x01) == p.max_idle_timeout@
            &&& field(0x03) == p.max_udp_payload_size@
            &&& field(0x04) == p.initial_max_data@
            &&& field(0x05) == p.initial_max_stream_data_bidi_local@
            &&& field(0x06) == p.initial_max_stream_data_bidi_remote@
            &&& field(0x07) == p.initial_max_stream_data_uni@
            &&& field(0x08) == p.initial_max_streams_bidi@
            &&& field(0x09) == p.initial_max_streams_uni@
            &&& field(0x0a) == p.ack_delay_exponent@
            &&& field(0x0b) == p.max_ack_delay@
            &&& field(0x0e) == p.active_connection_id_limit@
        }),
{
}

/// Abstract value of an optional connection ID
pub open spec fn spec_opt_cid(c: Option<ConnectionId>) -> Option<Seq<u8>> {
    match c {
        Some(c) => Some(c@),
        None => None,
    }
}

/// Abstract value of an optional `VarInt`
pub open spec fn spec_opt_var(v: Option<VarInt>) -> Option<u64> {
    match v {
        Some(v) => Some(v@),
        None => None,
    }
}

impl TransportParameters {
    /// Abstract value
    pub open spec fn spec_view(self) -> TransportParametersView {
        TransportParametersView {
            ints: seq![
                self.max_idle_timeout@,
                self.max_udp_payload_size@,
                self.initial_max_data@,
                self.initial_max_stream_data_bidi_local@,
                self.initial_max_stream_data_bidi_remote@,
                self.initial_max_stream_data_uni@,
                self.initial_max_streams_bidi@,
                self.initial_max_streams_uni@,
                self.ack_delay_exponent@,
                self.max_ack_delay@,
                self.active_connection_id_limit@,
            ],
            disable_active_migration: self.disable_active_migration,
            max_datagram_frame_size: spec_opt_var(self.max_datagram_frame_size),
            initial_src_cid: spec_opt_cid(self.initial_src_cid),
            grease_quic_bit: self.grease_quic_bit,
            min_ack_delay: spec_opt_var(self.min_ack_delay),
            original_dst_cid: spec_opt_cid(self.original_dst_cid),
            retry_src_cid: spec_opt_cid(self.retry_src_cid),
            stateless_reset_token: match self.stateless_reset_token {
                Some(t) => Some(t@),
                None => None,
            },
            preferred_address: match self.preferred_address {
                Some(pa) => Some(pa.spec_view()),
                None => None,
            },
        }
    }

    /// The `k`th integer parameter
    pub fn int_param(&self, k: usize) -> (r: VarInt)
        requires
            k < INT_PARAM_COUNT,
        ensures
            r@ == self.spec_view().ints[k as int],
    {
        if k == 0 {
            self.max_idle_timeout
        } else if k == 1 {
            self.max_udp_payload_size
        } else if k == 2 {
            self.initial_max_data
        } else if k == 3 {
            self.initial_max_stream_data_bidi_local
        } else if k == 4 {
            self.initial_max_stream_data_bidi_remote
        } else if k == 5 {
            self.initial_max_stream_data_uni
        } else if k == 6 {
            self.initial_max_streams_bidi
        } else if k == 7 {
            self.initial_max_streams_uni
        } else if k == 8 {
            self.ack_delay_exponent
        } else if k == 9 {
            self.max_ack_delay
        } else {
            self.active_connection_id_limit
        }
    }

    /// Set the `k`th integer parameter
    pub fn set_int_param(&mut self, k: usize, v: VarInt)
        requires
            k < INT_PARAM_COUNT,
        ensures
            final(self).spec_view() == (TransportParametersView {
                ints: old(self).spec_view().ints.update(k as int, v@),
                ..old(self).spec_view()
            }),
    {
        if k == 0 {
            self.max_idle_timeout = v;
        } else if k == 1 {
            self.max_udp_payload_size = v;
        } else if k == 2 {
            self.initial_max_data = v;
        } else if k == 3 {
            self.initial_max_stream_data_bidi_local = v;
        } else if k == 4 {
            self.initial_max_stream_data_bidi_remote = v;
        } else if k == 5 {
            self.initial_max_stream_data_uni = v;
        } else if k == 6 {
            self.initial_max_streams_bidi = v;
        } else if k == 7 {
            self.initial_max_streams_uni = v;
        } else if k == 8 {
            self.ack_delay_exponent = v;
        } else if k == 9 {
            self.max_ack_delay = v;
        } else {
            self.active_connection_id_limit = v;
        }
        assert(final(self).spec_view().ints =~= old(self).spec_view().ints.update(k as int, v@));
    }

    /// Standard defaults, used if the peer does not supply a given parameter.
    pub fn default() -> (r: TransportParameters)
        ensures
            r.spec_view() == spec_default_params(),
    {
        let r = TransportParameters {
            max_idle_timeout: VarInt::from_u32(0),
            max_udp_payload_size: VarInt::from_u32(65527),
            initial_max_data: VarInt::from_u32(0),
            initial_max_stream_data_bidi_local: VarInt::from_u32(0),
            initial_max_stream_data_bidi_remote: VarInt::from_u32(0),
            initial_max_stream_data_uni: VarInt::from_u32(0),
            initial_max_streams_bidi: VarInt::from_u32(0),
            initial_max_streams_uni: VarInt::from_u32(0),
            ack_delay_exponent: VarInt::from_u32(3),
            max_ack_delay: VarInt::from_u32(25),
            active_connection_id_limit: VarInt::from_u32(2),
            disable_active_migration: false,
            max_datagram_frame_size: None,
            initial_src_cid: None,
            grease_quic_bit: false,
            min_ack_delay: None,
            original_dst_cid: None,
            retry_src_cid: None,
            stateless_reset_token: None,
            preferred_address: None,
        };
        assert(r.spec_view().ints =~= spec_default_params().ints);
        r
    }
}

/// The protocol-specified defaults
pub open spec fn spec_default_params() -> TransportParametersView {
    TransportParametersView {
        ints: Seq::new(INT_PARAM_COUNT as nat, |k: int| spec_int_default(k)),
        disable_active_migration: false,
        max_datagram_frame_size: None,
        initial_src_cid: None,
        grease_quic_bit: false,
        min_ack_delay: None,
        original_dst_cid: None,
        retry_src_cid: None,
        stateless_reset_token: None,
        preferred_address: None,
    }
}


/// Encoding of the `k`th integer parameter with value `v`: nothing for the default value, else
/// the identifier, the length of the value's encoding and the value, each as a varint
pub open spec fn spec_write_int_param(k: int, v: u64) -> Seq<u8> {
    if v != spec_int_default(k) {
        spec_varint_encode(spec_int_code(k)) + spec_varint_encode(spec_varint_size(v) as u64)
            + spec_varint_encode(v)
    } else {
        Seq::empty()
    }
}

/// Encoding of the first `k` integer parameters
pub open spec fn spec_write_ints(ints: Seq<u64>, k: nat) -> Seq<u8>
    decreases k,
{
    if k == 0 {
        Seq::empty()
    } else {
        spec_write_ints(ints, (k - 1) as nat) + spec_write_int_param(k - 1, ints[k - 1])
    }
}

/// Encoding of an optional connection ID parameter
pub open spec fn spec_write_cid_param(tag: u64, c: Option<Seq<u8>>) -> Seq<u8> {
    match c {
        Some(c) => spec_varint_encode(tag) + spec_varint_encode(c.len() as u64) + c,
        None => Seq::empty(),
    }
}

/// Encoding of an optional varint parameter
pub open spec fn spec_write_var_param(tag: u64, v: Option<u64>) -> Seq<u8> {
    match v {
        Some(x) => spec_varint_encode(tag) + spec_varint_encode(spec_varint_size(x) as u64)
            + spec_varint_encode(x),
        None => Seq::empty(),
    }
}

/// Encoding of a flag parameter, which has no value
pub open spec fn spec_write_flag_param(tag: u64, f: bool) -> Seq<u8> {
    if f {
        spec_varint_encode(tag) + spec_varint_encode(0)
    } else {
        Seq::empty()
    }
}

/// Encoding of an optional preferred address parameter
pub open spec fn spec_write_pa_param(pa: Option<PreferredAddressView>) -> Seq<u8> {
    match pa {
        Some(pa) => spec_varint_encode(0x0d) + spec_varint_encode((41 + pa.cid.len()) as u64)
            + spec_pa_write(pa),
        None => Seq::empty(),
    }
}

/// Encoding of transport parameters: the integer parameters that differ from their defaults,
/// a reserved parameter, then the others that are present
pub open spec fn spec_write(p: TransportParametersView) -> Seq<u8> {
    spec_write_ints(p.ints, INT_PARAM_COUNT as nat) + (spec_varint_encode(182)
        + spec_varint_encode(0)) + spec_write_token_param(p.stateless_reset_token)
        + spec_write_flag_param(0x0c, p.disable_active_migration) + spec_write_var_param(
        0x20,
        p.max_datagram_frame_size,
    ) + spec_write_pa_param(p.preferred_address) + spec_write_cid_param(0x00, p.original_dst_cid) + spec_write_cid_param(
        0x0f,
        p.initial_src_cid,
    ) + spec_write_cid_param(0x10, p.retry_src_cid) + spec_write_flag_param(
        0x2ab2,
        p.grease_quic_bit,
    ) + spec_write_var_param(0xff04de1a, p.min_ack_delay)
}


impl PreferredAddress {
    /// Number of bytes of the encoding
    pub fn wire_size(&self) -> (r: u16)
        ensures
            r == 41 + self.connection_id@.len(),
            r == spec_pa_write(self.spec_view()).len(),
    {
        proof {
            self.stateless_reset_token.lemma_len();
        }
        4 + 2 + 16 + 2 + 1 + self.connection_id.len() as u16 + 16
    }

    /// Append the encoding to `w`
    pub fn write(&self, w: &mut Vec<u8>)
        ensures
            final(w)@ == old(w)@ + spec_pa_write(self.spec_view()),
    {
        let (ip4, port4): ([u8; 4], u16) = match self.address_v4 {
            Some(a) => (a.ip, a.port),
            None => ([0u8, 0u8, 0u8, 0u8], 0),
        };
        let (ip6, port6): ([u8; 16], u16) = match self.address_v6 {
            Some(a) => (a.ip, a.port),
            None => ([0u8, 0u8, 0u8, 0u8, 0u8, 0u8, 0u8, 0u8, 0u8, 0u8, 0u8, 0u8, 0u8, 0u8, 0u8, 0u8], 0),
        };
        put_slice(w, ip4.as_slice());
        put_u16(w, port4);
        put_slice(w, ip6.as_slice());
        put_u16(w, port6);
        w.push(self.connection_id.len() as u8);
        let cid = self.connection_id.to_vec();
        put_slice(w, cid.as_slice());
        self.stateless_reset_token.encode(w);
        proof {
            assert([0u8, 0u8, 0u8, 0u8]@ =~= spec_zeros(4));
            assert([0u8, 0u8, 0u8, 0u8, 0u8, 0u8, 0u8, 0u8, 0u8, 0u8, 0u8, 0u8, 0u8, 0u8, 0u8, 0u8]@
                =~= spec_zeros(16));
            let v = self.spec_view();
            assert(final(w)@ =~= old(w)@ + spec_pa_write(v));
        }
    }
}

/// Append the encoding of an optional connection ID parameter
fn write_cid_param(w: &mut Vec<u8>, tag: u64, c: &Option<ConnectionId>)
    requires
        tag < VARINT_BOUND,
    ensures
        final(w)@ == old(w)@ + spec_write_cid_param(tag, spec_opt_cid(*c)),
{
    match c {
        Some(cid) => {
            write_var(w, tag);
            write_var(w, cid.len() as u64);
            let bytes = cid.to_vec();
            put_slice(w, bytes.as_slice());
            assert(final(w)@ =~= old(w)@ + spec_write_cid_param(tag, spec_opt_cid(*c)));
        },
        None => {
            assert(final(w)@ =~= old(w)@ + spec_write_cid_param(tag, spec_opt_cid(*c)));
        },
    }
}

/// Append the encoding of an optional varint parameter
fn write_var_param(w: &mut Vec<u8>, tag: u64, v: Option<VarInt>)
    requires
        tag < VARINT_BOUND,
    ensures
        final(w)@ == old(w)@ + spec_write_var_param(tag, spec_opt_var(v)),
{
    match v {
        Some(x) => {
            write_var(w, tag);
            write_var(w, x.size() as u64);
            x.encode(w);
            assert(final(w)@ =~= old(w)@ + spec_write_var_param(tag, spec_opt_var(v)));
        },
        None => {
            assert(final(w)@ =~= old(w)@ + spec_write_var_param(tag, spec_opt_var(v)));
        },
    }
}

/// Append the encoding of a flag parameter
fn write_flag_param(w: &mut Vec<u8>, tag: u64, f: bool)
    requires
        tag < VARINT_BOUND,
    ensures
        final(w)@ == old(w)@ + spec_write_flag_param(tag, f),
{
    if f {
        write_var(w, tag);
        write_var(w, 0);
        assert(final(w)@ =~= old(w)@ + spec_write_flag_param(tag, f));
    } else {
        assert(final(w)@ =~= old(w)@ + spec_write_flag_param(tag, f));
    }
}

impl TransportParameters {
    /// Encode `TransportParameters` into buffer
    /// Append the encoding of the integer parameters that differ from their defaults
    fn write_int_params(&self, w: &mut Vec<u8>)
        ensures
            final(w)@ == old(w)@ + spec_write_ints(self.spec_view().ints, INT_PARAM_COUNT as nat),
    {
        let ghost p = self.spec_view();
        let mut k: usize = 0;
        while k < INT_PARAM_COUNT
            invariant
                p == self.spec_view(),
                k <= INT_PARAM_COUNT,
                w@ == old(w)@ + spec_write_ints(p.ints, k as nat),
            decreases INT_PARAM_COUNT - k,
        {
            let v = self.int_param(k);
            let ghost before = w@;
            if v.into_inner() != int_default(k) {
                write_var(w, int_code(k));
                write_var(w, v.size() as u64);
                v.encode(w);
            }
            k = k + 1;
            assert(w@ =~= old(w)@ + spec_write_ints(p.ints, k as nat));
        }
    }

    /// Encode `TransportParameters` into buffer
    pub fn write(&self, w: &mut Vec<u8>)
        ensures
            final(w)@ == old(w)@ + spec_write(self.spec_view()),
    {
        let ghost p = self.spec_view();
        self.write_int_params(w);
        let ghost m0 = w@;
        write_var(w, 31 * 5 + 27);
        write_var(w, 0);
        let ghost m1 = w@;
        write_token_param(w, &self.stateless_reset_token);
        let ghost m2 = w@;
        write_flag_param(w, 0x0c, self.disable_active_migration);
        let ghost m3 = w@;
        write_var_param(w, 0x20, self.max_datagram_frame_size);
        let ghost m4 = w@;
        write_pa_param(w, &self.preferred_address);
        let ghost m5 = w@;
        write_cid_param(w, 0x00, &self.original_dst_cid);
        let ghost m6 = w@;
        write_cid_param(w, 0x0f, &self.initial_src_cid);
        let ghost m7 = w@;
        write_cid_param(w, 0x10, &self.retry_src_cid);
        let ghost m8 = w@;
        write_flag_param(w, 0x2ab2, self.grease_quic_bit);
        let ghost m9 = w@;
        write_var_param(w, 0xff04de1a, self.min_ack_delay);
        proof {
            lemma_write_parts(p);
            let parts = spec_write_parts(p);
            assert(m0 == old(w)@ + parts[0]);
            assert(m1 == m0 + parts[1]);
            assert(m2 == m1 + parts[2]);
            assert(m3 == m2 + parts[3]);
            assert(m4 == m3 + parts[4]);
            assert(m5 == m4 + parts[5]);
            assert(m6 == m5 + parts[6]);
            assert(m7 == m6 + parts[7]);
            assert(m8 == m7 + parts[8]);
            assert(m9 == m8 + parts[9]);
            assert(final(w)@ == m9 + parts[10]);
            lemma_concat_parts(old(w)@, parts, seq![m0, m1, m2, m3, m4, m5, m6, m7, m8, m9, final(w)@]);
        }
    }
}

/// The pieces of the encoding of transport parameters, in order
pub open spec fn spec_write_parts(p: TransportParametersView) -> Seq<Seq<u8>> {
    seq![
        spec_write_ints(p.ints, INT_PARAM_COUNT as nat),
        spec_varint_encode(182) + spec_varint_encode(0),
        spec_write_token_param(p.stateless_reset_token),
        spec_write_flag_param(0x0c, p.disable_active_migration),
        spec_write_var_param(0x20, p.max_datagram_frame_size),
        spec_write_pa_param(p.preferred_address),
        spec_write_cid_param(0x00, p.original_dst_cid),
        spec_write_cid_param(0x0f, p.initial_src_cid),
        spec_write_cid_param(0x10, p.retry_src_cid),
        spec_write_flag_param(0x2ab2, p.grease_quic_bit),
        spec_write_var_param(0xff04de1a, p.min_ack_delay),
    ]
}

/// Concatenation of a sequence of byte sequences
pub open spec fn spec_concat(parts: Seq<Seq<u8>>) -> Seq<u8>
    decreases parts.len(),
{
    if parts.len() == 0 {
        Seq::empty()
    } else {
        spec_concat(parts.drop_last()) + parts.last()
    }
}

/// The encoding is the concatenation of its pieces
proof fn lemma_write_parts(p: TransportParametersView)
    ensures
        spec_concat(spec_write_parts(p)) == spec_write(p),
{
    let parts = spec_write_parts(p);
    reveal_with_fuel(spec_concat, 12);
    assert(spec_concat(parts) =~= spec_write(p));
}

/// Appending pieces one after another appends their concatenation
proof fn lemma_concat_parts(start: Seq<u8>, parts: Seq<Seq<u8>>, marks: Seq<Seq<u8>>)
    requires
        parts.len() == marks.len(),
        parts.len() > 0,
        marks[0] == start + parts[0],
        forall|i: int| 0 < i < parts.len() ==> #[trigger] marks[i] == marks[i - 1] + parts[i],
    ensures
        marks.last() == start + spec_concat(parts),
    decreases parts.len(),
{
    if parts.len() == 1 {
        assert(parts.drop_last() =~= Seq::<Seq<u8>>::empty());
        assert(spec_concat(parts.drop_last()) == Seq::<u8>::empty());
        assert(spec_concat(parts) == spec_concat(parts.drop_last()) + parts.last());
        assert(parts.last() == parts[0]);
        assert(marks.last() == marks[0]);
        assert(marks.last() =~= start + spec_concat(parts));
    } else {
        let pp = parts.drop_last();
        let mm = marks.drop_last();
        assert forall|i: int| 0 < i < pp.len() implies #[trigger] mm[i] == mm[i - 1] + pp[i] by {
            assert(mm[i] == marks[i]);
            assert(mm[i - 1] == marks[i - 1]);
        }
        lemma_concat_parts(start, pp, mm);
        assert(marks.last() == marks[marks.len() - 2] + parts.last());
        assert(marks.last() =~= start + spec_concat(parts));
    }
}

/// Encoding of an optional stateless reset token parameter
pub open spec fn spec_write_token_param(t: Option<Seq<u8>>) -> Seq<u8> {
    match t {
        Some(t) => spec_varint_encode(0x02) + spec_varint_encode(16) + t,
        None => Seq::empty(),
    }
}

/// Append the encoding of an optional stateless reset token parameter
fn write_token_param(w: &mut Vec<u8>, t: &Option<ResetToken>)
    ensures
        final(w)@ == old(w)@ + spec_write_token_param(
            match *t {
                Some(t) => Some(t@),
                None => None,
            },
        ),
{
    match t {
        Some(x) => {
            write_var(w, 0x02);
            write_var(w, 16);
            x.encode(w);
            assert(final(w)@ =~= old(w)@ + spec_write_token_param(Some(x@)));
        },
        None => {
            assert(final(w)@ =~= old(w)@ + spec_write_token_param(None));
        },
    }
}

/// Append the encoding of an optional preferred address parameter
fn write_pa_param(w: &mut Vec<u8>, pa: &Option<PreferredAddress>)
    ensures
        final(w)@ == old(w)@ + spec_write_pa_param(
            match *pa {
                Some(x) => Some(x.spec_view()),
                None => None,
            },
        ),
{
    match pa {
        Some(x) => {
            write_var(w, 0x000d);
            write_var(w, x.wire_size() as u64);
            x.write(w);
            assert(final(w)@ =~= old(w)@ + spec_write_pa_param(Some(x.spec_view())));
        },
        None => {
            assert(final(w)@ =~= old(w)@ + spec_write_pa_param(None));
        },
    }
}


/// Parameters decoded so far, and which integer parameters have been seen
pub struct ReadState {
    pub p: TransportParametersView,
    pub got: Seq<bool>,
}

/// Result of decoding transport parameters
pub enum ReadOutcome {
    /// The parameters decoded
    Done(TransportParametersView),
    /// Decoding failed with the given error
    Failed(Error),
    /// Decoding does not complete normally
    Panics,
}

/// Result of decoding the value of one parameter
pub enum StepOutcome {
    /// The updated state and the number of bytes read
    Next(ReadState, nat),
    /// Decoding failed with the given error
    Stop(Error),
    /// Decoding does not complete normally
    Panics,
}

/// Value of a connection ID parameter of `len` bytes at the start of `s`, given its current
/// value; `None` if the length is illegal or the parameter was already given
pub open spec fn spec_decode_cid(len: u64, cur: Option<Seq<u8>>, s: Seq<u8>) -> Option<Seq<u8>> {
    if len > MAX_CID_SIZE || cur is Some || s.len() < len {
        None
    } else {
        Some(s.take(len as int))
    }
}

/// Decoding of the value of parameter `id`, announced as `len` bytes long, from `s`
#[verifier::opaque]
pub open spec fn spec_read_step(id: u64, len: u64, s: Seq<u8>, st: ReadState) -> StepOutcome {
    let p = st.p;
    if id == 0x00 {
        match spec_decode_cid(len, p.original_dst_cid, s) {
            None => StepOutcome::Stop(Error::Malformed),
            Some(c) => StepOutcome::Next(
                ReadState { p: TransportParametersView { original_dst_cid: Some(c), ..p }, ..st },
                len as nat,
            ),
        }
    } else if id == 0x02 {
        if len != 16 || p.stateless_reset_token is Some {
            StepOutcome::Stop(Error::Malformed)
        } else {
            StepOutcome::Next(
                ReadState {
                    p: TransportParametersView { stateless_reset_token: Some(s.take(16)), ..p },
                    ..st
                },
                16,
            )
        }
    } else if id == 0x0c {
        if len != 0 || p.disable_active_migration {
            StepOutcome::Stop(Error::Malformed)
        } else {
            StepOutcome::Next(
                ReadState {
                    p: TransportParametersView { disable_active_migration: true, ..p },
                    ..st
                },
                0,
            )
        }
    } else if id == 0x0d {
        if p.preferred_address is Some {
            StepOutcome::Stop(Error::Malformed)
        } else {
            match spec_pa_read(s.take(len as int)) {
                Err(e) => StepOutcome::Stop(e),
                Ok((pa, n)) => StepOutcome::Next(
                    ReadState {
                        p: TransportParametersView { preferred_address: Some(pa), ..p },
                        ..st
                    },
                    n,
                ),
            }
        }
    } else if id == 0x0f {
        match spec_decode_cid(len, p.initial_src_cid, s) {
            None => StepOutcome::Stop(Error::Malformed),
            Some(c) => StepOutcome::Next(
                ReadState { p: TransportParametersView { initial_src_cid: Some(c), ..p }, ..st },
                len as nat,
            ),
        }
    } else if id == 0x10 {
        match spec_decode_cid(len, p.retry_src_cid, s) {
            None => StepOutcome::Stop(Error::Malformed),
            Some(c) => StepOutcome::Next(
                ReadState { p: TransportParametersView { retry_src_cid: Some(c), ..p }, ..st },
                len as nat,
            ),
        }
    } else if id == 0x20 {
        if len > 8 || p.max_datagram_frame_size is Some {
            StepOutcome::Stop(Error::Malformed)
        } else {
            match spec_varint_decode(s) {
                None => StepOutcome::Panics,
                Some((v, n)) => StepOutcome::Next(
                    ReadState {
                        p: TransportParametersView { max_datagram_frame_size: Some(v), ..p },
                        ..st
                    },
                    n,
                ),
            }
        }
    } else if id == 0x2ab2 {
        if len == 0 {
            StepOutcome::Next(
                ReadState { p: TransportParametersView { grease_quic_bit: true, ..p }, ..st },
                0,
            )
        } else {
            StepOutcome::Stop(Error::Malformed)
        }
    } else if id == 0xff04de1a {
        match spec_varint_decode(s) {
            None => StepOutcome::Panics,
            Some((v, n)) => StepOutcome::Next(
                ReadState { p: TransportParametersView { min_ack_delay: Some(v), ..p }, ..st },
                n,
            ),
        }
    } else {
        match spec_int_index(id) {
            Some(k) => match spec_varint_decode(s) {
                None => StepOutcome::Stop(Error::Malformed),
                Some((v, n)) => if len != spec_varint_size(v) || st.got[k] {
                    StepOutcome::Stop(Error::Malformed)
                } else {
                    StepOutcome::Next(
                        ReadState {
                            p: TransportParametersView { ints: p.ints.update(k, v), ..p },
                            got: st.got.update(k, true),
                        },
                        n,
                    )
                },
            },
            None => StepOutcome::Next(st, len as nat),
        }
    }
}

/// Result of decoding one parameter, identifier, length and value, from the front of the input
pub enum ParamStep {
    /// The number of bytes read and the updated state
    Continue(nat, ReadState),
    /// Decoding ends here with the given outcome
    End(ReadOutcome),
}

/// Decoding of the first parameter in `s`: its identifier and length, as varints, followed by
/// its value
#[verifier::opaque]
pub open spec fn spec_read_one(s: Seq<u8>, st: ReadState) -> ParamStep {
    match spec_varint_decode(s) {
        None => ParamStep::End(ReadOutcome::Failed(Error::Malformed)),
        Some((id, n1)) => {
            let s1 = s.subrange(n1 as int, s.len() as int);
            match spec_varint_decode(s1) {
                None => ParamStep::End(ReadOutcome::Failed(Error::Malformed)),
                Some((len, n2)) => {
                    let s2 = s1.subrange(n2 as int, s1.len() as int);
                    if s2.len() < len {
                        ParamStep::End(ReadOutcome::Failed(Error::Malformed))
                    } else {
                        match spec_read_step(id, len, s2, st) {
                            StepOutcome::Next(st2, c) => if c <= s2.len() {
                                ParamStep::Continue(n1 + n2 + c, st2)
                            } else {
                                ParamStep::End(ReadOutcome::Panics)
                            },
                            StepOutcome::Stop(e) => ParamStep::End(ReadOutcome::Failed(e)),
                            StepOutcome::Panics => ParamStep::End(ReadOutcome::Panics),
                        }
                    }
                },
            }
        },
    }
}

/// Decoding of the parameters in `s`, one after the other, starting from state `st`
pub open spec fn spec_read_params(s: Seq<u8>, st: ReadState) -> ReadOutcome
    decreases s.len(),
{
    if s.len() == 0 {
        ReadOutcome::Done(st.p)
    } else {
        match spec_read_one(s, st) {
            ParamStep::Continue(c, st2) => if 0 < c <= s.len() {
                spec_read_params(s.subrange(c as int, s.len() as int), st2)
            } else {
                ReadOutcome::Panics
            },
            ParamStep::End(o) => o,
        }
    }
}

/// Whether decoded parameters break the rules of RFC 9000 (or the ACK frequency extension),
/// for parameters sent by the peer of an endpoint on `side`
pub open spec fn spec_params_illegal(side: Side, p: TransportParametersView) -> bool {
    ||| p.ints[8] > 20
    ||| p.ints[9] >= 0x4000
    ||| p.ints[10] < 2
    ||| p.ints[1] < 1200
    ||| p.ints[6] > MAX_STREAM_COUNT
    ||| p.ints[7] > MAX_STREAM_COUNT
    ||| (p.min_ack_delay matches Some(m) && m > p.ints[9] * 1000)
    ||| (side == Side::Server && (p.original_dst_cid is Some || p.preferred_address is Some
        || p.retry_src_cid is Some || p.stateless_reset_token is Some))
    ||| (p.preferred_address matches Some(pa) && pa.cid.len() == 0)
}

/// The state decoding starts from: the defaults, with no integer parameter seen
pub open spec fn spec_initial_read_state() -> ReadState {
    ReadState { p: spec_default_params(), got: Seq::new(INT_PARAM_COUNT as nat, |k: int| false) }
}

/// Decoding of the transport parameters sent by the peer of an endpoint on `side`
pub open spec fn spec_read(side: Side, s: Seq<u8>) -> ReadOutcome {
    match spec_read_params(s, spec_initial_read_state()) {
        ReadOutcome::Done(p) => if spec_params_illegal(side, p) {
            ReadOutcome::Failed(Error::IllegalValue)
        } else {
            ReadOutcome::Done(p)
        },
        o => o,
    }
}


/// Whether the `n` bytes of `r` at `pos` are all zero
fn all_zero(r: &[u8], pos: usize, n: usize) -> (res: bool)
    requires
        pos + n <= r@.len(),
    ensures
        res == (r@.subrange(pos as int, pos + n) == spec_zeros(n as nat)),
{
    let rlen = r.len();
    let mut i: usize = 0;
    while i < n
        invariant
            rlen == r@.len(),
            pos + n <= r@.len(),
            i <= n,
            forall|j: int| pos <= j < pos + i ==> #[trigger] r@[j] == 0u8,
        decreases n - i,
    {
        if r[pos + i] != 0 {
            assert(r@.subrange(pos as int, pos + n)[i as int] != spec_zeros(n as nat)[i as int]);
            return false;
        }
        i = i + 1;
    }
    assert(r@.subrange(pos as int, pos + n) =~= spec_zeros(n as nat));
    true
}

/// The four bytes of `r` at `pos`
fn array4(r: &[u8], pos: usize) -> (a: [u8; 4])
    requires
        pos + 4 <= r@.len(),
    ensures
        a@ == r@.subrange(pos as int, pos + 4),
{
    let a = [r[pos], r[pos + 1], r[pos + 2], r[pos + 3]];
    assert(a@ =~= r@.subrange(pos as int, pos + 4));
    a
}

/// The sixteen bytes of `r` at `pos`
fn array16(r: &[u8], pos: usize) -> (a: [u8; 16])
    requires
        pos + 16 <= r@.len(),
    ensures
        a@ == r@.subrange(pos as int, pos + 16),
{
    let a = [
        r[pos],
        r[pos + 1],
        r[pos + 2],
        r[pos + 3],
        r[pos + 4],
        r[pos + 5],
        r[pos + 6],
        r[pos + 7],
        r[pos + 8],
        r[pos + 9],
        r[pos + 10],
        r[pos + 11],
        r[pos + 12],
        r[pos + 13],
        r[pos + 14],
        r[pos + 15],
    ];
    assert(a@ =~= r@.subrange(pos as int, pos + 16));
    a
}

impl PreferredAddress {
    /// Decode a preferred address from the bytes of the parameter, returning it and the number
    /// of bytes read
    pub fn read(r: &[u8]) -> (res: Result<(PreferredAddress, usize), Error>)
        ensures
            match spec_pa_read(r@) {
                Ok((pa, n)) => res is Ok && res->Ok_0.0.spec_view() == pa && res->Ok_0.1 == n,
                Err(e) => res == Err::<(PreferredAddress, usize), Error>(e),
            },
    {
        if r.len() < 25 {
            return Err(Error::Malformed);
        }
        let ip4 = array4(r, 0);
        let port4 = crate::coding::get_u16(r, 4);
        let ip6 = array16(r, 6);
        let port6 = crate::coding::get_u16(r, 22);
        let cid_len = r[24] as usize;
        if r.len() - 25 < cid_len || cid_len > MAX_CID_SIZE {
            return Err(Error::Malformed);
        }
        let connection_id = ConnectionId::from_buf(r, 25, cid_len);
        if r.len() - 25 - cid_len < 16 {
            return Err(Error::Malformed);
        }
        let stateless_reset_token = ResetToken::from_slice(r, 25 + cid_len);
        let address_v4 = if all_zero(r, 0, 4) && port4 == 0 {
            None
        } else {
            Some(SocketAddrV4 { ip: ip4, port: port4 })
        };
        let address_v6 = if all_zero(r, 6, 16) && port6 == 0 {
            None
        } else {
            Some(SocketAddrV6 { ip: ip6, port: port6 })
        };
        if address_v4.is_none() && address_v6.is_none() {
            return Err(Error::IllegalValue);
        }
        let pa = PreferredAddress { address_v4, address_v6, connection_id, stateless_reset_token };
        Ok((pa, 25 + cid_len + 16))
    }
}

/// Decode a connection ID parameter of `len` bytes at `pos` into `value`
///
/// Fails if the length is illegal or `value` is already set. Returns the number of bytes read.
fn decode_cid(len: u64, value: &mut Option<ConnectionId>, r: &[u8], pos: usize) -> (res: Result<
    usize,
    Error,
>)
    requires
        pos <= r@.len(),
    ensures
        match spec_decode_cid(len, spec_opt_cid(*old(value)), r@.subrange(pos as int, r@.len() as int)) {
            None => res == Err::<usize, Error>(Error::Malformed) && *final(value) == *old(value),
            Some(c) => res == Ok::<usize, Error>(len as usize) && spec_opt_cid(*final(value)) == Some(
                c,
            ),
        },
{
    if len > MAX_CID_SIZE as u64 || value.is_some() || ((r.len() - pos) as u64) < len {
        return Err(Error::Malformed);
    }
    let c = ConnectionId::from_buf(r, pos, len as usize);
    assert(c@ =~= r@.subrange(pos as int, r@.len() as int).take(len as int));
    *value = Some(c);
    Ok(len as usize)
}

/// Decode the value of parameter `id`, announced as `len` bytes long, at `pos` in `r`, into
/// `params` and `got`; returns the number of bytes read
fn read_step(
    params: &mut TransportParameters,
    got: &mut [bool; INT_PARAM_COUNT],
    id: u64,
    len: u64,
    r: &[u8],
    pos: usize,
) -> (res: Result<usize, Error>)
    requires
        pos <= r@.len(),
        r@.len() - pos >= len,
        !(spec_read_step(
            id,
            len,
            r@.subrange(pos as int, r@.len() as int),
            ReadState { p: old(params).spec_view(), got: old(got)@ },
        ) is Panics),
    ensures
        match spec_read_step(
            id,
            len,
            r@.subrange(pos as int, r@.len() as int),
            ReadState { p: old(params).spec_view(), got: old(got)@ },
        ) {
            StepOutcome::Next(st, n) => res == Ok::<usize, Error>(n as usize)
                && final(params).spec_view() == st.p && final(got)@ == st.got,
            StepOutcome::Stop(e) => res == Err::<usize, Error>(e),
            StepOutcome::Panics => false,
        },
{
    let ghost s = r@.subrange(pos as int, r@.len() as int);
    let ghost st = ReadState { p: params.spec_view(), got: got@ };
    reveal(spec_read_step);
    let rlen = r.len();
    assert(len <= usize::MAX);
    if id == 0x00 {
        let res = decode_cid(len, &mut params.original_dst_cid, r, pos);
        proof {
            if res is Ok {
                assert(params.spec_view() =~= TransportParametersView {
                    original_dst_cid: spec_decode_cid(len, st.p.original_dst_cid, s),
                    ..st.p
                });
            }
        }
        res
    } else if id == 0x02 {
        if len != 16 || params.stateless_reset_token.is_some() {
            return Err(Error::Malformed);
        }
        let t = ResetToken::from_slice(r, pos);
        params.stateless_reset_token = Some(t);
        assert(t@ =~= s.take(16));
        Ok(16)
    } else if id == 0x0c {
        if len != 0 || params.disable_active_migration {
            return Err(Error::Malformed);
        }
        params.disable_active_migration = true;
        Ok(0)
    } else if id == 0x0d {
        if params.preferred_address.is_some() {
            return Err(Error::Malformed);
        }
        let lim = pos + len as usize;
        let sub = &r[pos..lim];
        assert(sub@ =~= s.take(len as int));
        match PreferredAddress::read(sub) {
            Err(e) => Err(e),
            Ok((pa, n)) => {
                params.preferred_address = Some(pa);
                Ok(n)
            },
        }
    } else if id == 0x0f {
        let res = decode_cid(len, &mut params.initial_src_cid, r, pos);
        res
    } else if id == 0x10 {
        let res = decode_cid(len, &mut params.retry_src_cid, r, pos);
        res
    } else if id == 0x20 {
        if len > 8 || params.max_datagram_frame_size.is_some() {
            return Err(Error::Malformed);
        }
        let rest = &r[pos..r.len()];
        assert(rest@ =~= s);
        match VarInt::decode(rest) {
            Ok((v, n)) => {
                params.max_datagram_frame_size = Some(v);
                Ok(n)
            },
            Err(_) => Err(Error::Malformed),
        }
    } else if id == 0x2ab2 {
        if len == 0 {
            params.grease_quic_bit = true;
            Ok(0)
        } else {
            Err(Error::Malformed)
        }
    } else if id == 0xff04de1a {
        let rest = &r[pos..r.len()];
        assert(rest@ =~= s);
        match VarInt::decode(rest) {
            Ok((v, n)) => {
                params.min_ack_delay = Some(v);
                Ok(n)
            },
            Err(_) => Err(Error::Malformed),
        }
    } else {
        match int_index(id) {
            Some(k) => {
                let rest = &r[pos..r.len()];
                assert(rest@ =~= s);
                match VarInt::decode(rest) {
                    Err(_) => Err(Error::Malformed),
                    Ok((v, n)) => {
                        if len != v.size() as u64 || got[k] {
                            return Err(Error::Malformed);
                        }
                        params.set_int_param(k, v);
                        got[k] = true;
                        Ok(n)
                    },
                }
            },
            None => Ok(len as usize),
        }
    }
}

/// Decode the parameter at `pos` in `r` into `params` and `got`; returns the number of bytes
/// read
#[verifier::spinoff_prover]
#[verifier::rlimit(40)]
fn read_one(
    params: &mut TransportParameters,
    got: &mut [bool; INT_PARAM_COUNT],
    r: &[u8],
    pos: usize,
) -> (res: Result<usize, Error>)
    requires
        pos < r@.len(),
        !(spec_read_one(
            r@.subrange(pos as int, r@.len() as int),
            ReadState { p: old(params).spec_view(), got: old(got)@ },
        ) == ParamStep::End(ReadOutcome::Panics)),
    ensures
        match spec_read_one(
            r@.subrange(pos as int, r@.len() as int),
            ReadState { p: old(params).spec_view(), got: old(got)@ },
        ) {
            ParamStep::Continue(c, st) => res == Ok::<usize, Error>(c as usize) && 0 < c
                <= r@.len() - pos && final(params).spec_view() == st.p && final(got)@ == st.got,
            ParamStep::End(ReadOutcome::Failed(e)) => res == Err::<usize, Error>(e),
            ParamStep::End(_) => false,
        },
{
    reveal(spec_read_one);
    let rlen = r.len();
    let ghost s = r@.subrange(pos as int, r@.len() as int);
    let ghost st = ReadState { p: params.spec_view(), got: got@ };
    let r1 = read_var_at(r, pos);
    if r1.is_err() {
        return Err(Error::Malformed);
    }
    let (id, n1) = r1.unwrap();
    assert(spec_varint_decode(s) == Some((id, n1 as nat)));
    let ghost s1 = s.subrange(n1 as int, s.len() as int);
    assert(s1 =~= r@.subrange(pos + n1, r@.len() as int));
    let r2 = read_var_at(r, pos + n1);
    if r2.is_err() {
        return Err(Error::Malformed);
    }
    let (len, n2) = r2.unwrap();
    assert(spec_varint_decode(s1) == Some((len, n2 as nat)));
    let p2 = pos + n1 + n2;
    let ghost s2 = s1.subrange(n2 as int, s1.len() as int);
    assert(s2 =~= r@.subrange(p2 as int, r@.len() as int));
    if ((rlen - p2) as u64) < len {
        return Err(Error::Malformed);
    }
    match read_step(params, got, id, len, r, p2) {
        Ok(c) => Ok(n1 + n2 + c),
        Err(e) => Err(e),
    }
}

impl TransportParameters {
    /// Whether these parameters, sent by the peer of an endpoint on `side`, break the rules
    fn illegal(&self, side: Side) -> (r: bool)
        ensures
            r == spec_params_illegal(side, self.spec_view()),
    {
        let ack_delay_exponent = self.ack_delay_exponent.into_inner();
        let max_ack_delay = self.max_ack_delay.into_inner();
        if ack_delay_exponent > 20 || max_ack_delay >= 0x4000 {
            return true;
        }
        if self.active_connection_id_limit.into_inner() < 2
            || self.max_udp_payload_size.into_inner() < 1200
            || self.initial_max_streams_bidi.into_inner() > MAX_STREAM_COUNT
            || self.initial_max_streams_uni.into_inner() > MAX_STREAM_COUNT {
            return true;
        }
        let min_ack_delay_too_large = match self.min_ack_delay {
            Some(m) => m.into_inner() > max_ack_delay * 1_000,
            None => false,
        };
        if min_ack_delay_too_large {
            return true;
        }
        if side.is_server() && (self.original_dst_cid.is_some() || self.preferred_address.is_some()
            || self.retry_src_cid.is_some() || self.stateless_reset_token.is_some()) {
            return true;
        }
        match &self.preferred_address {
            Some(x) => x.connection_id.is_empty(),
            None => false,
        }
    }

    /// Decode `TransportParameters` sent by the peer of an endpoint on `side` from `r`
    pub fn read(side: Side, r: &[u8]) -> (res: Result<TransportParameters, Error>)
        requires
            !(spec_read(side, r@) is Panics),
        ensures
            match spec_read(side, r@) {
                ReadOutcome::Done(p) => res is Ok && res->Ok_0.spec_view() == p,
                ReadOutcome::Failed(e) => res == Err::<TransportParameters, Error>(e),
                ReadOutcome::Panics => false,
            },
    {
        let mut params = TransportParameters::default();
        let mut got = [false, false, false, false, false, false, false, false, false, false, false];
        let ghost whole = spec_read_params(r@, spec_initial_read_state());
        proof {
            assert(got@ =~= spec_initial_read_state().got);
            assert(r@.subrange(0, r@.len() as int) =~= r@);
        }
        let mut pos: usize = 0;
        while pos < r.len()
            invariant
                pos <= r@.len(),
                spec_read_params(
                    r@.subrange(pos as int, r@.len() as int),
                    ReadState { p: params.spec_view(), got: got@ },
                ) == whole,
                !(whole is Panics),
                whole == spec_read_params(r@, spec_initial_read_state()),
            decreases r@.len() - pos,
        {
            let ghost s = r@.subrange(pos as int, r@.len() as int);
            match read_one(&mut params, &mut got, r, pos) {
                Ok(c) => {
                    assert(r@.subrange((pos + c) as int, r@.len() as int) =~= s.subrange(
                        c as int,
                        s.len() as int,
                    ));
                    pos = pos + c;
                },
                Err(e) => {
                    return Err(e);
                },
            }
        }
        assert(r@.subrange(pos as int, r@.len() as int) =~= Seq::<u8>::empty());
        if params.illegal(side) {
            return Err(Error::IllegalValue);
        }
        Ok(params)
    }

    /// Abstract value of the parameters announced with `config`, for CIDs of `cid_len` bytes
    /// and source CID `initial_src_cid`
    pub open spec fn spec_new_view(config: &TransportConfig, cid_len: usize, initial_src_cid: ConnectionId) -> TransportParametersView {
        TransportParametersView {
                ints: spec_default_params().ints.update(0, match config.max_idle_timeout {
                    Some(t) => t@,
                    None => 0,
                }).update(2, config.receive_window@).update(
                    4,
                    config.stream_receive_window@,
                ).update(5, config.stream_receive_window@).update(
                    6,
                    config.max_concurrent_bidi_streams@,
                ).update(7, config.max_concurrent_uni_streams@).update(
                    10,
                    if cid_len == 0 {
                        2u64
                    } else {
                        CID_QUEUE_LEN as u64
                    },
                ),
                initial_src_cid: Some(initial_src_cid@),
                min_ack_delay: Some(TIMER_GRANULARITY / 1000),
                ..spec_default_params()
            }
    }

    /// The parameters this endpoint announces for a connection: the limits of `config`, the
    /// source CID `initial_src_cid`, a minimum ACK delay of the timer granularity, and an active
    /// connection ID limit of the CID queue's length where CIDs are used (`cid_len` non-zero), 2
    /// otherwise; everything else at its default
    pub fn new(config: &TransportConfig, cid_len: usize, initial_src_cid: ConnectionId) -> (r:
        TransportParameters)
        ensures
            r.spec_view() == TransportParameters::spec_new_view(config, cid_len, initial_src_cid),
    {
        let mut p = TransportParameters::default();
        p.initial_src_cid = Some(initial_src_cid);
        p.initial_max_streams_uni = config.max_concurrent_uni_streams;
        p.initial_max_data = config.receive_window;
        p.initial_max_stream_data_uni = config.stream_receive_window;
        p.initial_max_streams_bidi = config.max_concurrent_bidi_streams;
        p.initial_max_stream_data_bidi_remote = config.stream_receive_window;
        p.max_idle_timeout = match config.max_idle_timeout {
            Some(t) => t,
            None => VarInt::from_u32(0),
        };
        p.min_ack_delay = Some(VarInt::from_u32((TIMER_GRANULARITY / 1000) as u32));
        p.active_connection_id_limit = if cid_len == 0 {
            VarInt::from_u32(2)
        } else {
            VarInt::from_u32(CID_QUEUE_LEN as u32)
        };
        assert(p.spec_view().ints =~= spec_default_params().ints.update(0, match config.max_idle_timeout {
            Some(t) => t@,
            None => 0,
        }).update(2, config.receive_window@).update(4, config.stream_receive_window@).update(
            5,
            config.stream_receive_window@,
        ).update(6, config.max_concurrent_bidi_streams@).update(
            7,
            config.max_concurrent_uni_streams@,
        ).update(10, if cid_len == 0 {
            2u64
        } else {
            CID_QUEUE_LEN as u64
        }));
        p
    }

    /// Check that these parameters are legal when resuming from `cached` parameters: none of the
    /// limits may shrink, and the QUIC bit may not stop being greased
    pub fn validate_resumption_from(&self, cached: &TransportParameters) -> (r: Result<
        (),
        TransportError,
    >)
        ensures
            ({
                let bad = cached.active_connection_id_limit@ > self.active_connection_id_limit@
                    || cached.initial_max_data@ > self.initial_max_data@
                    || cached.initial_max_stream_data_bidi_local@
                    > self.initial_max_stream_data_bidi_local@
                    || cached.initial_max_stream_data_bidi_remote@
                    > self.initial_max_stream_data_bidi_remote@
                    || cached.initial_max_stream_data_uni@ > self.initial_max_stream_data_uni@
                    || cached.initial_max_streams_bidi@ > self.initial_max_streams_bidi@
                    || cached.initial_max_streams_uni@ > self.initial_max_streams_uni@
                    || (match (cached.max_datagram_frame_size, self.max_datagram_frame_size) {
                    (Some(a), Some(b)) => a@ > b@,
                    (Some(_), None) => true,
                    _ => false,
                }) || (cached.grease_quic_bit && !self.grease_quic_bit);
                &&& bad ==> r is Err && r->Err_0.code == Code::PROTOCOL_VIOLATION() && r->Err_0.reason@
                    == "0-RTT accepted with incompatible transport parameters"@
                &&& !bad ==> r is Ok
            }),
    {
        let dgram_shrinks = match (cached.max_datagram_frame_size, self.max_datagram_frame_size) {
            (Some(a), Some(b)) => a.into_inner() > b.into_inner(),
            (Some(_), None) => true,
            _ => false,
        };
        if cached.active_connection_id_limit.into_inner() > self.active_connection_id_limit.into_inner()
            || cached.initial_max_data.into_inner() > self.initial_max_data.into_inner()
            || cached.initial_max_stream_data_bidi_local.into_inner()
            > self.initial_max_stream_data_bidi_local.into_inner()
            || cached.initial_max_stream_data_bidi_remote.into_inner()
            > self.initial_max_stream_data_bidi_remote.into_inner()
            || cached.initial_max_stream_data_uni.into_inner()
            > self.initial_max_stream_data_uni.into_inner()
            || cached.initial_max_streams_bidi.into_inner()
            > self.initial_max_streams_bidi.into_inner()
            || cached.initial_max_streams_uni.into_inner() > self.initial_max_streams_uni.into_inner()
            || dgram_shrinks || (cached.grease_quic_bit && !self.grease_quic_bit) {
            return Err(TransportError::PROTOCOL_VIOLATION(
                "0-RTT accepted with incompatible transport parameters",
            ));
        }
        Ok(())
    }

    /// Maximum number of CIDs to issue to this peer
    ///
    /// Consider both a) the active_connection_id_limit from the other end; and
    /// b) LOC_CID_COUNT used locally
    pub fn issue_cids_limit(&self) -> (r: u64)
        ensures
            r == if self.active_connection_id_limit@ < LOC_CID_COUNT {
                self.active_connection_id_limit@
            } else {
                LOC_CID_COUNT
            },
    {
        let a = self.active_connection_id_limit.into_inner();
        if a < LOC_CID_COUNT {
            a
        } else {
            LOC_CID_COUNT
        }
    }
}

} // verus!
