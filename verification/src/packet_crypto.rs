//! Decisions taken when removing the header protection of an incoming packet.
use vstd::prelude::*;

use crate::packet::{spec_header_space, spec_space_index, HeaderView, LongType, PartialDecode, SpaceId};
use crate::token::{ResetToken, RESET_TOKEN_SIZE};

verus! {

/// Where the key that protects a packet's header comes from
#[derive(Debug, Copy, Clone, PartialEq, Eq, Structural)]
pub enum HeaderKeySource {
    /// The 0-RTT keys
    ZeroRtt,
    /// The remote keys of a packet number space
    Space(SpaceId),
    /// The packet is not protected
    Unprotected,
}

/// The key a packet's header needs: the 0-RTT keys for a 0-RTT packet, else those of its
/// space; `None` if they are missing, and the packet is dropped
pub fn header_key_source(is_0rtt: bool, has_0rtt_keys: bool, space: Option<SpaceId>, space_keys: [bool; 3]) -> (r: Option<HeaderKeySource>)
    ensures
        is_0rtt ==> r == if has_0rtt_keys {
            Some(HeaderKeySource::ZeroRtt)
        } else {
            None
        },
        !is_0rtt ==> r == match space {
            Some(s) => if space_keys@[spec_space_index(s) as int] {
                Some(HeaderKeySource::Space(s))
            } else {
                None
            },
            None => Some(HeaderKeySource::Unprotected),
        },
{
    if is_0rtt {
        if has_0rtt_keys {
            Some(HeaderKeySource::ZeroRtt)
        } else {
            None
        }
    } else {
        match space {
            Some(s) => {
                let i = s.index();
                if space_keys[i] {
                    Some(HeaderKeySource::Space(s))
                } else {
                    None
                }
            },
            None => Some(HeaderKeySource::Unprotected),
        }
    }
}

/// Whether datagram `packet` is a stateless reset: long enough, and ending in the peer's
/// reset token `token`
pub open spec fn spec_is_stateless_reset(packet: Seq<u8>, token: Option<ResetToken>) -> bool {
    &&& packet.len() >= RESET_TOKEN_SIZE + 5
    &&& token matches Some(t) && t@ == packet.subrange(
        packet.len() - RESET_TOKEN_SIZE,
        packet.len() as int,
    )
}

/// Whether datagram `packet` is a stateless reset; the token is compared in constant time
pub fn is_stateless_reset(packet: &[u8], token: Option<ResetToken>) -> (r: bool)
    ensures
        r == spec_is_stateless_reset(packet@, token),
{
    let n = packet.len();
    if n < RESET_TOKEN_SIZE + 5 {
        return false;
    }
    match token {
        None => false,
        Some(t) => {
            let tail = ResetToken::from_slice(packet, n - RESET_TOKEN_SIZE);
            t.same_as(&tail)
        },
    }
}

/// What removing the header protection of a packet gave
#[derive(Debug, Copy, Clone, PartialEq, Eq, Structural)]
pub enum UnprotectOutcome {
    /// The packet, which may still be a stateless reset
    Packet { stateless_reset: bool },
    /// No packet could be decoded, but the datagram is a stateless reset
    ResetOnly,
}

/// Removes header protection of the packet `partial_decode` (in effect: decides on the
/// outcome), given which keys the connection has, the peer's reset token, and whether
/// finishing the decoding with the key of [`header_key_source`] succeeded; `None` if the
/// packet is dropped
pub fn unprotect_header(
    partial_decode: &PartialDecode,
    has_0rtt_keys: bool,
    space_keys: [bool; 3],
    stateless_reset_token: Option<ResetToken>,
    finished: bool,
) -> (r: Option<UnprotectOutcome>)
    ensures
        ({
            let reset = spec_is_stateless_reset(partial_decode.spec_data(), stateless_reset_token);
            let is_0rtt = partial_decode.spec_header() matches HeaderView::Long { ty, .. } && ty
                == LongType::ZeroRtt;
            let keys_missing = if is_0rtt {
                !has_0rtt_keys
            } else {
                match spec_header_space(partial_decode.spec_header()) {
                    Some(s) => !space_keys@[spec_space_index(s) as int],
                    None => false,
                }
            };
            if keys_missing {
                r is None
            } else if finished {
                r == Some(UnprotectOutcome::Packet { stateless_reset: reset })
            } else if reset {
                r == Some(UnprotectOutcome::ResetOnly)
            } else {
                r is None
            }
        }),
{
    let source = header_key_source(
        partial_decode.is_0rtt(),
        has_0rtt_keys,
        partial_decode.space(),
        space_keys,
    );
    if source.is_none() {
        return None;
    }
    let stateless_reset = is_stateless_reset(partial_decode.data(), stateless_reset_token);
    if finished {
        Some(UnprotectOutcome::Packet { stateless_reset })
    } else if stateless_reset {
        Some(UnprotectOutcome::ResetOnly)
    } else {
        None
    }
}

} // verus!
