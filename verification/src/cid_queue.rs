//! The connection IDs the peer has issued to us, by sequence number.
use vstd::prelude::*;

use crate::frame::NewConnectionId;
use crate::shared::ConnectionId;
use crate::token::ResetToken;

verus! {

/// Number of connection IDs kept
pub const CID_QUEUE_LEN: usize = 5;

/// A connection ID with its reset token, if known
pub type CidData = (ConnectionId, Option<ResetToken>);

/// Abstract value of a slot: the ID's bytes and the token's
pub open spec fn spec_cid_data(d: Option<CidData>) -> Option<(Seq<u8>, Option<Seq<u8>>)> {
    match d {
        Some((c, t)) => Some((c@, match t {
            Some(t) => Some(t@),
            None => None,
        })),
        None => None,
    }
}

/// A ring buffer of the connection IDs with sequence numbers `offset..offset + 5`; the first is
/// the one in use
#[derive(Debug)]
pub struct CidQueue {
    buffer: [Option<CidData>; CID_QUEUE_LEN],
    cursor: usize,
    offset: u64,
}

/// Why a connection ID could not be stored
#[derive(Debug, Copy, Clone, PartialEq, Eq, Structural)]
pub enum InsertError {
    /// Its sequence number is below that of the active ID
    Retired,
    /// Its sequence number is beyond what the queue holds
    ExceedsLimit,
}

impl CidQueue {
    #[verifier::type_invariant]
    closed spec fn inv(self) -> bool {
        self.cursor < CID_QUEUE_LEN
    }

    /// The slots, starting from the active one: slot `j` holds the ID with sequence number
    /// `offset + j`, if known
    pub closed spec fn slots(&self) -> Seq<Option<(Seq<u8>, Option<Seq<u8>>)>> {
        Seq::new(
            CID_QUEUE_LEN as nat,
            |j: int| spec_cid_data(self.buffer@[(self.cursor + j) % (CID_QUEUE_LEN as int)]),
        )
    }

    /// Sequence number of the active ID
    pub closed spec fn spec_offset(&self) -> u64 {
        self.offset
    }

    /// A queue holding `cid` as the active ID, with sequence number zero
    pub fn new(cid: ConnectionId) -> (r: CidQueue)
        ensures
            r.spec_offset() == 0,
            r.slots()[0] == Some((cid@, None::<Seq<u8>>)),
            forall|j: int| 1 <= j < CID_QUEUE_LEN ==> #[trigger] r.slots()[j] is None,
    {
        let buffer: [Option<CidData>; CID_QUEUE_LEN] = [Some((cid, None)), None, None, None, None];
        CidQueue { buffer, cursor: 0, offset: 0 }
    }

    /// The active ID
    pub fn active(&self) -> (r: ConnectionId)
        requires
            self.slots()[0] is Some,
        ensures
            Some(r@) == match self.slots()[0] {
                Some((c, _)) => Some(c),
                None => None,
            },
    {
        proof {
            use_type_invariant(self);
            assert(self.slots()[0] == spec_cid_data(self.buffer@[self.cursor as int]));
        }
        match self.buffer[self.cursor] {
            Some((c, _)) => c,
            None => {
                proof {
                    assert(false);
                }
                self.buffer[self.cursor].unwrap().0
            },
        }
    }

    /// Replace the active ID, the initial one, by `cid`
    pub fn update_initial_cid(&mut self, cid: ConnectionId)
        ensures
            final(self).spec_offset() == old(self).spec_offset(),
            final(self).slots() == old(self).slots().update(0, Some((cid@, None::<Seq<u8>>))),
    {
        proof {
            use_type_invariant(&*self);
        }
        let c = self.cursor;
        self.buffer[c] = Some((cid, None));
        proof {
            assert forall|j: int| 0 <= j < CID_QUEUE_LEN implies #[trigger] self.slots()[j]
                == old(self).slots().update(0, Some((cid@, None::<Seq<u8>>)))[j] by {
                if j != 0 {
                    assert((c + j) % (CID_QUEUE_LEN as int) != c);
                }
            }
            assert(self.slots() =~= old(self).slots().update(0, Some((cid@, None::<Seq<u8>>))));
        }
    }

    /// Store the ID announced by a NEW_CONNECTION_ID frame
    ///
    /// An ID whose sequence number is below the active one's is refused as retired; one at least
    /// `CID_QUEUE_LEN` above it as exceeding the limit.
    pub fn insert(&mut self, cid: NewConnectionId) -> (r: Result<
        Option<(std::ops::Range<u64>, ResetToken)>,
        InsertError,
    >)
        requires
            cid.retire_prior_to <= old(self).spec_offset(),
        ensures
            final(self).spec_offset() == old(self).spec_offset(),
            cid.sequence < old(self).spec_offset() ==> r == Err::<
                Option<(std::ops::Range<u64>, ResetToken)>,
                InsertError,
            >(InsertError::Retired) && final(self).slots() == old(self).slots(),
            cid.sequence >= old(self).spec_offset() + CID_QUEUE_LEN ==> r == Err::<
                Option<(std::ops::Range<u64>, ResetToken)>,
                InsertError,
            >(InsertError::ExceedsLimit) && final(self).slots() == old(self).slots(),
            old(self).spec_offset() <= cid.sequence < old(self).spec_offset() + CID_QUEUE_LEN ==> r
                is Ok && r->Ok_0 is None && final(self).slots() == old(self).slots().update(
                cid.sequence - old(self).spec_offset(),
                Some((cid.id@, Some(cid.reset_token@))),
            ),
    {
        proof {
            use_type_invariant(&*self);
        }
        let index = match cid.sequence.checked_sub(self.offset) {
            None => {
                return Err(InsertError::Retired);
            },
            Some(x) => x,
        };
        if index >= CID_QUEUE_LEN as u64 {
            return Err(InsertError::ExceedsLimit);
        }
        let slot = ((self.cursor as u64 + index) % (CID_QUEUE_LEN as u64)) as usize;
        self.buffer[slot] = Some((cid.id, Some(cid.reset_token)));
        proof {
            let c = self.cursor as int;
            assert forall|j: int| 0 <= j < CID_QUEUE_LEN implies #[trigger] self.slots()[j]
                == old(self).slots().update(index as int, Some((cid.id@, Some(cid.reset_token@))))[j] by {
                if j != index {
                    assert((c + j) % (CID_QUEUE_LEN as int) != (c + index) % (CID_QUEUE_LEN as int));
                }
            }
            assert(self.slots() =~= old(self).slots().update(
                index as int,
                Some((cid.id@, Some(cid.reset_token@))),
            ));
        }
        Ok(None)
    }

    /// Sequence number of the active ID
    pub fn active_seq(&self) -> (r: u64)
        ensures
            r == self.spec_offset(),
    {
        self.offset
    }
}

} // verus!
