//! What is known of a UDP socket once its options have been set.
use vstd::prelude::*;

verus! {

/// Segments the kernel may coalesce into one read when generic receive offload is on
pub const UDP_GRO_CNT_MAX: usize = 64;

/// Tokens for sending and receiving datagrams, and what the socket's options allow
#[derive(Debug)]
pub struct UdpSocketState {
    /// Whether transmitted datagrams might get fragmented by the IP layer
    may_fragment: bool,
    /// The number of segments to read when GRO is enabled
    gro_segments: usize,
    /// Whether a `sendmsg` system call failed with EINVAL at least once: an old kernel, on
    /// which the IP_TOS control message is not used
    sendmsg_einval: bool,
}

/// Whether datagrams may be fragmented, given which of the options that forbid it could be
/// set: path MTU discovery probing for IPv4, and for an IPv6 socket also for IPv6 and the
/// IPV6_DONTFRAG flag
pub open spec fn spec_may_fragment(
    is_ipv4: bool,
    ip_mtu_discover: bool,
    ipv6_mtu_discover: bool,
    ipv6_dontfrag: bool,
) -> bool {
    !ip_mtu_discover || (!is_ipv4 && (!ipv6_mtu_discover || !ipv6_dontfrag))
}

/// The number of segments to read at once: the kernel's maximum if the UDP_GRO option could be
/// set on a probe socket, else 1
pub fn gro_segments_for(gro_enabled: bool) -> (r: usize)
    ensures
        r == if gro_enabled {
            UDP_GRO_CNT_MAX
        } else {
            1
        },
{
    if gro_enabled {
        UDP_GRO_CNT_MAX
    } else {
        1
    }
}

impl UdpSocketState {
    /// Whether transmitted datagrams might get fragmented by the IP layer
    pub closed spec fn spec_may_fragment(&self) -> bool {
        self.may_fragment
    }

    /// The number of segments to read when GRO is enabled
    pub closed spec fn spec_gro_segments(&self) -> usize {
        self.gro_segments
    }

    /// Whether `sendmsg` failed with EINVAL before
    pub closed spec fn spec_sendmsg_einval(&self) -> bool {
        self.sendmsg_einval
    }

    /// The state of a socket on which the options were set with the given outcomes: whether
    /// the socket is IPv4, whether each option against fragmentation is supported, and the
    /// number of GRO segments
    pub fn from_options(
        is_ipv4: bool,
        ip_mtu_discover: bool,
        ipv6_mtu_discover: bool,
        ipv6_dontfrag: bool,
        gro_segments: usize,
    ) -> (r: UdpSocketState)
        ensures
            r.spec_may_fragment() == spec_may_fragment(
                is_ipv4,
                ip_mtu_discover,
                ipv6_mtu_discover,
                ipv6_dontfrag,
            ),
            r.spec_gro_segments() == gro_segments,
            !r.spec_sendmsg_einval(),
    {
        let mut may_fragment = false;
        may_fragment = may_fragment || !ip_mtu_discover;
        if !is_ipv4 {
            may_fragment = may_fragment || !ipv6_mtu_discover;
        }
        if !is_ipv4 {
            may_fragment = may_fragment || !ipv6_dontfrag;
        }
        UdpSocketState { may_fragment, gro_segments, sendmsg_einval: false }
    }

    /// Whether transmitted datagrams might get fragmented by the IP layer; `false` where e.g.
    /// the IPV6_DONTFRAG socket option is used
    pub fn may_fragment(&self) -> (r: bool)
        ensures
            r == self.spec_may_fragment(),
    {
        self.may_fragment
    }

    /// The number of segments to read when GRO is enabled, used as a factor to compute the
    /// receive buffer size; 1 if the platform doesn't support GRO
    pub fn gro_segments(&self) -> (r: usize)
        ensures
            r == self.spec_gro_segments(),
    {
        self.gro_segments
    }

    /// Whether a `sendmsg` system call failed with EINVAL before
    pub fn sendmsg_einval(&self) -> (r: bool)
        ensures
            r == self.spec_sendmsg_einval(),
    {
        self.sendmsg_einval
    }

    /// Record that a `sendmsg` system call failed with EINVAL
    pub fn set_sendmsg_einval(&mut self)
        ensures
            final(self).spec_sendmsg_einval(),
            final(self).spec_may_fragment() == old(self).spec_may_fragment(),
            final(self).spec_gro_segments() == old(self).spec_gro_segments(),
    {
        self.sendmsg_einval = true;
    }

    /// Whether an IP_TOS control message carrying the ECN codepoint goes with a datagram to a
    /// destination: only for IPv4 (or IPv4-mapped) destinations, and not once `sendmsg` failed
    /// with EINVAL
    pub fn sends_tos(&self, destination_is_ipv4: bool) -> (r: bool)
        ensures
            r == (destination_is_ipv4 && !self.spec_sendmsg_einval()),
    {
        destination_is_ipv4 && !self.sendmsg_einval
    }
}

} // verus!
