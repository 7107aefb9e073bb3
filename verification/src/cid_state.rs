//! Local connection IDs issued to the peer: which are active, and when they expire.
use rustc_hash::{FxBuildHasher, FxHashSet};
use std::collections::VecDeque;
use vstd::prelude::*;

use crate::shared::IssuedCid;
use crate::transport_error::{Code, Error as TransportError};

verus! {

/// The hasher builder of `rustc_hash`'s sets and maps
#[verifier::external_type_specification]
#[verifier::external_body]
pub struct ExFxBuildHasher(FxBuildHasher);

/// Add `k` to a set hashed by `rustc_hash`: `HashSet::insert`, which leaves the set holding `k`
#[verifier::external_body]
pub(crate) fn fx_set_insert(s: &mut FxHashSet<u64>, k: u64)
    ensures
        final(s)@ == old(s)@.insert(k),
{
    s.insert(k);
}

/// Remove `k` from a set hashed by `rustc_hash`: `HashSet::remove`, which leaves the set without
/// `k`
#[verifier::external_body]
pub(crate) fn fx_set_remove(s: &mut FxHashSet<u64>, k: u64)
    ensures
        final(s)@ == old(s)@.remove(k),
{
    s.remove(&k);
}

/// Number of elements of a set hashed by `rustc_hash`: `HashSet::len`
#[verifier::external_body]
pub(crate) fn fx_set_len(s: &FxHashSet<u64>) -> (r: usize)
    ensures
        r == s@.len(),
{
    s.len()
}

/// The last CID of a batch of CIDs expiring at the same time, in nanoseconds
#[derive(Debug, Copy, Clone, PartialEq, Eq, Structural)]
pub struct CidTimestamp {
    /// Sequence number of the last CID of the batch
    pub sequence: u64,
    /// When the batch expires
    pub timestamp: u64,
}

/// The expiry records after tracking CID `seq` expiring at `expire_at`: merged into the last
/// record if that expires at the same time, else appended
pub open spec fn spec_track(ts: Seq<CidTimestamp>, seq: u64, expire_at: u64) -> Seq<CidTimestamp> {
    if ts.len() > 0 && ts.last().timestamp == expire_at {
        ts.drop_last().push(CidTimestamp { sequence: seq, timestamp: expire_at })
    } else {
        ts.push(CidTimestamp { sequence: seq, timestamp: expire_at })
    }
}

/// Local connection IDs issued to the peer
pub struct CidState {
    retire_timestamp: VecDeque<CidTimestamp>,
    issued: u64,
    active_seq: FxHashSet<u64>,
    prev_retire_seq: u64,
    retire_seq: u64,
    cid_len: usize,
    cid_lifetime: Option<u64>,
}

impl CidState {
    /// Expiry records, oldest first
    pub closed spec fn spec_timestamps(&self) -> Seq<CidTimestamp> {
        self.retire_timestamp@
    }

    /// Number of CIDs issued
    pub closed spec fn spec_issued(&self) -> u64 {
        self.issued
    }

    /// Sequence numbers of the CIDs not retired
    pub closed spec fn spec_active(&self) -> Set<u64> {
        self.active_seq@
    }

    /// The sequence number below which CIDs are to be retired
    pub closed spec fn spec_retire_seq(&self) -> u64 {
        self.retire_seq
    }

    /// Length of the CIDs
    pub closed spec fn spec_cid_len(&self) -> usize {
        self.cid_len
    }

    /// Lifetime of the CIDs, in nanoseconds
    pub closed spec fn spec_lifetime(&self) -> Option<u64> {
        self.cid_lifetime
    }

    /// The expiry records after tracking CID `seq` issued at `now`
    pub open spec fn spec_after_track(&self, seq: u64, now: u64) -> Seq<CidTimestamp> {
        match self.spec_lifetime() {
            Some(l) => if now + l <= u64::MAX {
                spec_track(self.spec_timestamps(), seq, (now + l) as u64)
            } else {
                self.spec_timestamps()
            },
            None => self.spec_timestamps(),
        }
    }

    /// State for `issued` CIDs issued during the handshake at `now`, all active
    pub fn new(cid_len: usize, cid_lifetime: Option<u64>, now: u64, issued: u64) -> (r: CidState)
        ensures
            r.spec_issued() == issued,
            r.spec_active() == Set::new(|x: u64| x < issued),
            r.spec_retire_seq() == 0,
            r.spec_cid_len() == cid_len,
            r.spec_lifetime() == cid_lifetime,
            r.spec_timestamps() == match cid_lifetime {
                Some(l) => if now + l <= u64::MAX && issued > 0 {
                    seq![CidTimestamp { sequence: (issued - 1) as u64, timestamp: (now + l) as u64 }]
                } else {
                    Seq::<CidTimestamp>::empty()
                },
                None => Seq::<CidTimestamp>::empty(),
            },
    {
        let mut active_seq: FxHashSet<u64> = FxHashSet::default();
        let mut seq: u64 = 0;
        while seq < issued
            invariant
                seq <= issued,
                active_seq@ == Set::new(|x: u64| x < seq),
            decreases issued - seq,
        {
            fx_set_insert(&mut active_seq, seq);
            seq = seq + 1;
            assert(active_seq@ =~= Set::new(|x: u64| x < seq));
        }
        let mut this = CidState {
            retire_timestamp: VecDeque::new(),
            issued,
            active_seq,
            prev_retire_seq: 0,
            retire_seq: 0,
            cid_len,
            cid_lifetime,
        };
        let mut seq: u64 = 0;
        while seq < issued
            invariant
                seq <= issued,
                this.spec_issued() == issued,
                this.spec_active() == Set::new(|x: u64| x < issued),
                this.spec_retire_seq() == 0,
                this.spec_cid_len() == cid_len,
                this.spec_lifetime() == cid_lifetime,
                this.spec_timestamps() == match cid_lifetime {
                    Some(l) => if now + l <= u64::MAX && seq > 0 {
                        seq![CidTimestamp { sequence: (seq - 1) as u64, timestamp: (now + l) as u64 }]
                    } else {
                        Seq::<CidTimestamp>::empty()
                    },
                    None => Seq::<CidTimestamp>::empty(),
                },
            decreases issued - seq,
        {
            this.track_lifetime(seq, now);
            seq = seq + 1;
            proof {
                match cid_lifetime {
                    Some(l) => if now + l <= u64::MAX {
                        assert(this.spec_timestamps() =~= seq![
                            CidTimestamp { sequence: (seq - 1) as u64, timestamp: (now + l) as u64 },
                        ]);
                    },
                    None => {},
                }
            }
        }
        this
    }

    /// Record that CID `new_cid_seq` issued at `now` expires after the lifetime, if any
    fn track_lifetime(&mut self, new_cid_seq: u64, now: u64)
        ensures
            final(self).spec_timestamps() == old(self).spec_after_track(new_cid_seq, now),
            final(self).spec_issued() == old(self).spec_issued(),
            final(self).spec_active() == old(self).spec_active(),
            final(self).spec_retire_seq() == old(self).spec_retire_seq(),
            final(self).spec_cid_len() == old(self).spec_cid_len(),
            final(self).spec_lifetime() == old(self).spec_lifetime(),
    {
        let lifetime = match self.cid_lifetime {
            Some(lifetime) => lifetime,
            None => {
                return;
            },
        };
        let expire_at = match now.checked_add(lifetime) {
            Some(expire_at) => expire_at,
            None => {
                return;
            },
        };
        match self.retire_timestamp.pop_back() {
            Some(last) => {
                if last.timestamp == expire_at {
                    self.retire_timestamp.push_back(
                        CidTimestamp { sequence: new_cid_seq, timestamp: expire_at },
                    );
                    return;
                }
                self.retire_timestamp.push_back(last);
                proof {
                    assert(self.retire_timestamp@ =~= old(self).retire_timestamp@);
                }
            },
            None => {},
        }
        self.retire_timestamp.push_back(CidTimestamp { sequence: new_cid_seq, timestamp: expire_at });
    }

    /// Account for new CIDs `ids` issued at `now`: they are active, and the last of them expires
    /// after the lifetime
    pub fn new_cids(&mut self, ids: &[IssuedCid], now: u64)
        requires
            old(self).spec_issued() + ids@.len() <= u64::MAX,
        ensures
            ids@.len() == 0 ==> final(self).spec_timestamps() == old(self).spec_timestamps()
                && final(self).spec_issued() == old(self).spec_issued() && final(self).spec_active()
                == old(self).spec_active(),
            ids@.len() > 0 ==> final(self).spec_issued() == old(self).spec_issued() + ids@.len()
                && final(self).spec_active() == old(self).spec_active().union(
                Set::new(|x: u64| exists|i: int| 0 <= i < ids@.len() && ids@[i].sequence == x),
            ) && final(self).spec_timestamps() == old(self).spec_after_track(
                ids@.last().sequence,
                now,
            ),
            final(self).spec_retire_seq() == old(self).spec_retire_seq(),
            final(self).spec_cid_len() == old(self).spec_cid_len(),
            final(self).spec_lifetime() == old(self).spec_lifetime(),
    {
        let n = ids.len();
        if n == 0 {
            return;
        }
        let sequence = ids[n - 1].sequence;
        self.issued = self.issued + n as u64;
        let ghost a0 = self.active_seq@;
        let mut i: usize = 0;
        while i < n
            invariant
                n == ids@.len(),
                i <= n,
                self.active_seq@ == a0.union(
                    Set::new(|x: u64| exists|j: int| 0 <= j < i && ids@[j].sequence == x),
                ),
                self.retire_timestamp@ == old(self).spec_timestamps(),
                self.issued == old(self).spec_issued() + n,
                self.retire_seq == old(self).spec_retire_seq(),
                self.cid_len == old(self).spec_cid_len(),
                self.cid_lifetime == old(self).spec_lifetime(),
            decreases n - i,
        {
            fx_set_insert(&mut self.active_seq, ids[i].sequence);
            i = i + 1;
            proof {
                assert forall|x: u64| #[trigger] self.active_seq@.contains(x) == a0.union(
                    Set::new(|x: u64| exists|j: int| 0 <= j < i && ids@[j].sequence == x),
                ).contains(x) by {
                    if x == ids@[i - 1].sequence {
                        assert(exists|j: int| 0 <= j < i && ids@[j].sequence == x);
                    }
                    if exists|j: int| 0 <= j < i && ids@[j].sequence == x {
                        let j = choose|j: int| 0 <= j < i && ids@[j].sequence == x;
                        if j < i - 1 {
                            assert(exists|j2: int| 0 <= j2 < i - 1 && ids@[j2].sequence == x);
                        }
                    }
                }
                assert(self.active_seq@ =~= a0.union(
                    Set::new(|x: u64| exists|j: int| 0 <= j < i && ids@[j].sequence == x),
                ));
            }
        }
        self.track_lifetime(sequence, now);
    }

    /// The sequence number below which CIDs are to be retired
    pub fn retire_prior_to(&self) -> (r: u64)
        ensures
            r == self.spec_retire_seq(),
    {
        self.retire_seq
    }

    /// Length of the CIDs
    pub fn cid_len(&self) -> (r: usize)
        ensures
            r == self.spec_cid_len(),
    {
        self.cid_len
    }

    /// When the oldest batch of CIDs expires, if any
    pub fn next_timeout(&mut self) -> (r: Option<u64>)
        ensures
            r == if old(self).spec_timestamps().len() > 0 {
                Some(old(self).spec_timestamps()[0].timestamp)
            } else {
                None::<u64>
            },
            final(self).spec_timestamps() == old(self).spec_timestamps(),
    {
        if self.retire_timestamp.len() == 0 {
            return None;
        }
        Some(self.retire_timestamp[0].timestamp)
    }

    /// Account for the peer retiring CID `sequence`; returns whether fewer than `limit` CIDs are
    /// active, so that a new one may be issued
    ///
    /// Retiring is a protocol violation when CIDs are not in use, or for a sequence number not
    /// issued.
    pub fn on_cid_retirement(&mut self, sequence: u64, limit: u64) -> (r: Result<bool, TransportError>)
        ensures
            old(self).spec_cid_len() == 0 ==> r is Err && r->Err_0.code == Code::PROTOCOL_VIOLATION()
                && r->Err_0.reason@ == "RETIRE_CONNECTION_ID when CIDs aren't in use"@,
            old(self).spec_cid_len() != 0 && sequence > old(self).spec_issued() ==> r is Err
                && r->Err_0.code == Code::PROTOCOL_VIOLATION() && r->Err_0.reason@
                == "RETIRE_CONNECTION_ID for unissued sequence number"@,
            r is Err ==> final(self).spec_active() == old(self).spec_active(),
            old(self).spec_cid_len() != 0 && sequence <= old(self).spec_issued() ==> r is Ok
                && final(self).spec_active() == old(self).spec_active().remove(sequence) && r->Ok_0
                == (limit > final(self).spec_active().len()),
            final(self).spec_issued() == old(self).spec_issued(),
            final(self).spec_timestamps() == old(self).spec_timestamps(),
    {
        if self.cid_len == 0 {
            return Err(TransportError::PROTOCOL_VIOLATION("RETIRE_CONNECTION_ID when CIDs aren't in use"));
        }
        if sequence > self.issued {
            return Err(TransportError::PROTOCOL_VIOLATION("RETIRE_CONNECTION_ID for unissued sequence number"));
        }
        fx_set_remove(&mut self.active_seq, sequence);
        Ok(limit > fx_set_len(&self.active_seq) as u64)
    }
}

} // verus!
