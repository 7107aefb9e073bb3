//! Stream accounting of a connection: which streams exist, how many each side may open, and
//! connection-level flow control.
use rustc_hash::FxHashMap;
use std::collections::VecDeque;
use vstd::prelude::*;

use crate::assembler::Assembler;
use crate::frame::Stream;
use crate::recv::{spec_ingest_error, spec_ingested, spec_new_bytes, spec_new_recv, Recv, RecvState};
use crate::send::{Send, SendState};
use crate::spaces::Retransmits;
use crate::streams::{PendingStreamsQueue, ShouldTransmit, StreamEvent, StreamHalf, WriteError};
use crate::transport_error::{Code, Error as TransportError};
use crate::transport_parameters::TransportParameters;
use crate::varint::{VarInt, VARINT_BOUND};
use crate::{spec_dir_bit, spec_side_bit, spec_stream_id, Dir, Side, StreamId, MAX_STREAM_COUNT};

verus! {

/// Set `k` to `v` in a map hashed by `rustc_hash`: `HashMap::insert`, which returns the value
/// `k` had, if any
#[verifier::external_body]
fn fx_map_insert<V>(m: &mut FxHashMap<u64, V>, k: u64, v: V) -> (r: Option<V>)
    ensures
        final(m)@ == old(m)@.insert(k, v),
        r == if old(m)@.contains_key(k) {
            Some(old(m)@[k])
        } else {
            None::<V>
        },
{
    m.insert(k, v)
}

/// Remove `k` from a map hashed by `rustc_hash`: `HashMap::remove`, which returns the value `k`
/// had, if any
#[verifier::external_body]
fn fx_map_remove<V>(m: &mut FxHashMap<u64, V>, k: u64) -> (r: Option<V>)
    ensures
        final(m)@ == old(m)@.remove(k),
        r == if old(m)@.contains_key(k) {
            Some(old(m)@[k])
        } else {
            None::<V>
        },
{
    m.remove(&k)
}

/// Whether a map hashed by `rustc_hash` has key `k`: `HashMap::contains_key`
#[verifier::external_body]
fn fx_map_contains<V>(m: &FxHashMap<u64, V>, k: u64) -> (r: bool)
    ensures
        r == m@.contains_key(k),
{
    m.contains_key(&k)
}

/// The value of key `k` in a map hashed by `rustc_hash`: `HashMap::get`
#[verifier::external_body]
fn fx_map_get<V>(m: &FxHashMap<u64, V>, k: u64) -> (r: Option<&V>)
    ensures
        match r {
            Some(v) => m@.contains_key(k) && *v == m@[k],
            None => !m@.contains_key(k),
        },
{
    m.get(&k)
}

/// Index of a direction in per-direction arrays: bidirectional first
pub open spec fn spec_di(d: Dir) -> int {
    match d {
        Dir::Bi => 0,
        Dir::Uni => 1,
    }
}

/// Index of a direction in per-direction arrays
pub fn dir_index(d: Dir) -> (r: usize)
    ensures
        r == spec_di(d),
{
    match d {
        Dir::Bi => 0,
        Dir::Uni => 1,
    }
}

/// The other side
pub open spec fn spec_other(s: Side) -> Side {
    match s {
        Side::Client => Side::Server,
        Side::Server => Side::Client,
    }
}

/// The other side
pub fn other_side(s: Side) -> (r: Side)
    ensures
        r == spec_other(s),
{
    match s {
        Side::Client => Side::Server,
        Side::Server => Side::Client,
    }
}

/// The initiator encoded in a stream ID
pub open spec fn spec_initiator(x: u64) -> Side {
    if x % 2 == 0 {
        Side::Client
    } else {
        Side::Server
    }
}

/// The direction encoded in a stream ID
pub open spec fn spec_dir(x: u64) -> Dir {
    if (x / 2) % 2 == 0 {
        Dir::Bi
    } else {
        Dir::Uni
    }
}

/// The stream IDs of the given initiator and direction with an index below `n`
pub open spec fn spec_ids_below(initiator: Side, dir: Dir, n: u64) -> Set<u64> {
    Set::new(|x: u64| spec_initiator(x) == initiator && spec_dir(x) == dir && x / 4 < n)
}

/// Streams `ids`, none of them with any state yet
pub open spec fn spec_unopened<V>(ids: Set<u64>) -> Map<u64, Option<V>> {
    Map::new(|k: u64| ids.contains(k), |k: u64| None::<V>)
}

/// The stream IDs of the given initiator and direction with an index in `lo..hi`
pub open spec fn spec_ids_between(initiator: Side, dir: Dir, lo: u64, hi: int) -> Set<u64> {
    Set::new(
        |x: u64| spec_initiator(x) == initiator && spec_dir(x) == dir && lo <= x / 4 && x / 4 < hi,
    )
}

/// `a - b`, or 0 if `b` exceeds `a`
pub open spec fn spec_sat_sub(a: u64, b: u64) -> u64 {
    if a > b {
        (a - b) as u64
    } else {
        0
    }
}

/// Every stream in `send` or `recv` was opened by `side` within `next`, or allowed to the peer
/// within `max_remote`
pub open spec fn spec_ids_allowed(
    send: Set<u64>,
    recv: Set<u64>,
    side: Side,
    next: Seq<u64>,
    max_remote: Seq<u64>,
) -> bool {
    forall|x: u64|
        #![trigger send.contains(x)]
        #![trigger recv.contains(x)]
        (send.contains(x) || recv.contains(x) ==> if spec_initiator(x) == side {
            x / 4 < next[spec_di(spec_dir(x))]
        } else {
            x / 4 < max_remote[spec_di(spec_dir(x))]
        }) && (send.contains(x) && spec_dir(x) == Dir::Uni ==> spec_initiator(x) == side) && (
        recv.contains(x) && spec_dir(x) == Dir::Uni ==> spec_initiator(x) != side)
}

/// Stream `k` has a send half in state `s`
pub open spec fn spec_send_state_is(send: Map<u64, Option<Send>>, k: u64, s: SendState) -> bool {
    send.contains_key(k) && send[k] is Some && send[k]->Some_0.state == s
}

/// Stream `k` has a send half that could produce STREAM frames: one not reset
pub open spec fn spec_sendable(send: Map<u64, Option<Send>>, k: u64) -> bool {
    send.contains_key(k) && send[k] is Some && send[k]->Some_0.state != SendState::ResetSent
}

/// The streams this side opened, per `next`
pub open spec fn spec_local_opened(side: Side, next: Seq<u64>) -> Set<u64> {
    spec_ids_below(side, Dir::Bi, next[0]).union(spec_ids_below(side, Dir::Uni, next[1]))
}

/// Whether freeing half `half` of stream `id` frees the whole stream, one the peer initiated,
/// given the streams with each half
pub open spec fn spec_is_fully_freed(side: Side, send: Set<u64>, recv: Set<u64>, id: u64, half: StreamHalf) -> bool {
    &&& spec_initiator(id) != side
    &&& (spec_dir(id) == Dir::Uni || match half {
        StreamHalf::Send => !recv.contains(id),
        StreamHalf::Recv => !send.contains(id),
    })
}

/// Freeing half `half` of stream `id` stays within the counters: a freed send half is counted,
/// and a fully freed stream of the peer was allocated, with room for the streams that replace it
pub open spec fn spec_free_allowed(
    side: Side,
    send: Set<u64>,
    recv: Set<u64>,
    allocated: Seq<u64>,
    max_remote: Seq<u64>,
    max_concurrent: Seq<u64>,
    send_streams: usize,
    id: u64,
    half: StreamHalf,
) -> bool {
    let d = spec_di(spec_dir(id));
    &&& half == StreamHalf::Send ==> send_streams > 0
    &&& spec_is_fully_freed(side, send, recv, id, half) ==> {
        &&& allocated[d] > 0
        &&& max_remote[d] + spec_sat_sub(max_concurrent[d], (allocated[d] - 1) as u64)
            <= 0x4000_0000_0000_0000
    }
}

/// `post` is the state after half `half` of stream `id` was freed, from the streams `send` and
/// `recv` and the given counters: a fully freed stream of the peer is replaced by new ones up
/// to `max_concurrent`
pub open spec fn spec_after_free(
    post: StreamsState,
    side: Side,
    send: Map<u64, Option<Send>>,
    recv: Map<u64, Option<Recv>>,
    allocated: Seq<u64>,
    max_remote: Seq<u64>,
    max_concurrent: Seq<u64>,
    send_streams: usize,
    id: u64,
    half: StreamHalf,
) -> bool {
    let d = spec_di(spec_dir(id));
    let left = (allocated[d] - 1) as u64;
    let n = spec_sat_sub(max_concurrent[d], left);
    let ids = spec_ids_between(spec_other(side), spec_dir(id), max_remote[d], max_remote[d] + n);
    &&& post.send_streams == if half == StreamHalf::Send {
        (send_streams - 1) as usize
    } else {
        send_streams
    }
    &&& if spec_is_fully_freed(side, send.dom(), recv.dom(), id, half) {
        &&& post.allocated_remote_count@ == allocated.update(d, (left + n) as u64)
        &&& post.max_remote@ == max_remote.update(d, (max_remote[d] + n) as u64)
        &&& post.send@ == if spec_dir(id) == Dir::Bi {
            send.union_prefer_right(spec_unopened::<Send>(ids))
        } else {
            send
        }
        &&& post.recv@ == recv.union_prefer_right(spec_unopened::<Recv>(ids))
    } else {
        &&& post.allocated_remote_count@ == allocated
        &&& post.max_remote@ == max_remote
        &&& post.send@ == send
        &&& post.recv@ == recv
    }
}

/// A stream ID is determined by its initiator, direction and index
proof fn lemma_stream_id_unique(x: u64, initiator: Side, dir: Dir)
    requires
        spec_initiator(x) == initiator,
        spec_dir(x) == dir,
    ensures
        x == spec_stream_id(initiator, dir, x / 4),
{
}

/// The streams below index `i + 1` are those below `i` and the one of index `i`
proof fn lemma_ids_below_step(initiator: Side, dir: Dir, i: u64)
    requires
        i < 0x4000_0000_0000_0000,
    ensures
        spec_ids_below(initiator, dir, (i + 1) as u64) == spec_ids_below(initiator, dir, i).insert(
            spec_stream_id(initiator, dir, i),
        ),
{
    lemma_stream_id_decode(initiator, dir, i);
    assert forall|x: u64| spec_ids_below(initiator, dir, (i + 1) as u64).contains(x) implies spec_ids_below(initiator, dir, i).insert(spec_stream_id(initiator, dir, i)).contains(x) by {
        if x / 4 == i {
            lemma_stream_id_unique(x, initiator, dir);
        }
    }
    assert(spec_ids_below(initiator, dir, (i + 1) as u64) =~= spec_ids_below(initiator, dir, i).insert(
        spec_stream_id(initiator, dir, i),
    ));
}

/// The send halves `send`, with `max` as the flow control limit of those of `ids` that have
/// state
pub open spec fn spec_with_max_data(send: Map<u64, Option<Send>>, ids: Set<u64>, max: u64) -> Map<
    u64,
    Option<Send>,
> {
    Map::new(
        |k: u64| send.contains_key(k),
        |k: u64|
            if ids.contains(k) && send[k] is Some {
                Some(Send { max_data: max, ..send[k]->Some_0 })
            } else {
                send[k]
            },
    )
}

/// What a frame on stream `stream` does to the counts of streams the peer opened, the
/// per-direction flags of newly opened streams and the event queue: a stream of the peer above
/// those known opens it and all below; otherwise the stream may be readable
pub open spec fn spec_stream_frame_effect(
    side: Side,
    next_remote: Seq<u64>,
    opened: Seq<bool>,
    events: Seq<StreamEvent>,
    notify_readable: bool,
    stream: StreamId,
) -> (Seq<u64>, Seq<bool>, Seq<StreamEvent>) {
    let d = spec_di(spec_dir(stream.0));
    let readable = if notify_readable {
        events.push(StreamEvent::Readable { id: stream })
    } else {
        events
    };
    if spec_initiator(stream.0) != side && stream.0 / 4 >= next_remote[d] {
        (next_remote.update(d, (stream.0 / 4 + 1) as u64), opened.update(d, true), events)
    } else {
        (next_remote, opened, readable)
    }
}

/// Stream `k` has data that was sent in 0-RTT and must be sent again: it has a send half that
/// is not fully acknowledged, or whose end is still to be sent
pub open spec fn spec_resend_candidate(send: Map<u64, Option<Send>>, k: u64) -> bool {
    &&& send.contains_key(k)
    &&& send[k] is Some
    &&& !(send[k]->Some_0.pending.spec_unacked_len() == 0 && !send[k]->Some_0.fin_pending)
}

/// Send half `a` is not pending: it has no unsent data, no data to retransmit and no end to send
pub open spec fn spec_send_idle(a: Send) -> bool {
    &&& a.pending.spec_unsent() == a.pending.spec_offset()
    &&& a.pending.spec_retransmits() == Set::<u64>::empty()
    &&& !a.fin_pending
}

/// Send half `b` is `a` with all its data marked unsent
pub open spec fn spec_all_unsent(a: Send, b: Send) -> bool {
    &&& b.pending.spec_unsent() == 0
    &&& b.pending.spec_offset() == a.pending.spec_offset()
    &&& b.pending.spec_unacked_len() == a.pending.spec_unacked_len()
    &&& b.pending.spec_retransmits() == a.pending.spec_retransmits()
    &&& b.pending.spec_segments() == a.pending.spec_segments()
    &&& b.connection_blocked == a.connection_blocked
    &&& b.max_data == a.max_data
    &&& b.state == a.state
    &&& b.priority == a.priority
    &&& b.fin_pending == a.fin_pending
}

/// `post` is `pre` with the data of the streams of `ids` that are candidates marked unsent
pub open spec fn spec_resent(pre: Map<u64, Option<Send>>, post: Map<u64, Option<Send>>, ids: Set<u64>) -> bool {
    &&& post.dom() == pre.dom()
    &&& forall|k: u64| #[trigger]
        pre.contains_key(k) ==> if ids.contains(k) && spec_resend_candidate(pre, k) {
            post[k] is Some && spec_all_unsent(pre[k]->Some_0, post[k]->Some_0)
        } else {
            post[k] == pre[k]
        }
}

/// The client's streams of direction `dir` below index `n` that are queued again for 0-RTT
/// retransmission, in order: candidates that were not pending
pub open spec fn spec_requeued(send: Map<u64, Option<Send>>, dir: Dir, n: nat) -> Seq<StreamId>
    decreases n,
{
    if n == 0 {
        Seq::empty()
    } else {
        let k = spec_stream_id(Side::Client, dir, (n - 1) as u64);
        let rest = spec_requeued(send, dir, (n - 1) as nat);
        if spec_resend_candidate(send, k) && spec_send_idle(send[k]->Some_0) {
            rest.push(StreamId(k))
        } else {
            rest
        }
    }
}

/// Marking the client's bidirectional streams for retransmission leaves the order in which
/// unidirectional ones are queued
proof fn lemma_requeued_unchanged(s0: Map<u64, Option<Send>>, s1: Map<u64, Option<Send>>, nb: u64, n: nat)
    requires
        spec_resent(s0, s1, spec_ids_below(Side::Client, Dir::Bi, nb)),
        n <= 0x4000_0000_0000_0000,
    ensures
        spec_requeued(s1, Dir::Uni, n) == spec_requeued(s0, Dir::Uni, n),
    decreases n,
{
    if n > 0 {
        lemma_requeued_unchanged(s0, s1, nb, (n - 1) as nat);
        let k = spec_stream_id(Side::Client, Dir::Uni, (n - 1) as u64);
        lemma_stream_id_decode(Side::Client, Dir::Uni, (n - 1) as u64);
        if s0.contains_key(k) {
            assert(s1[k] == s0[k]);
        }
    }
}

/// Making room for the peer's streams fills its window: the streams allocated to the peer
/// become the larger of those already allocated and the desired window
pub proof fn lemma_remote_window_full(allocated: u64, max_concurrent: u64)
    ensures
        allocated + spec_sat_sub(max_concurrent, allocated) == if allocated > max_concurrent {
            allocated as int
        } else {
            max_concurrent as int
        },
{
}

/// A STREAM frame that is taken in keeps the connection within its receive limit: the data
/// received stays at most `local_max_data` if it was before
pub proof fn lemma_received_within_limit(
    rs: Recv,
    end: u64,
    fin: bool,
    data_recvd: u64,
    local_max_data: u64,
)
    requires
        spec_ingest_error(rs, end, fin, data_recvd, local_max_data) is None,
    ensures
        data_recvd + spec_new_bytes(end, rs.end) <= local_max_data,
{
    crate::recv::lemma_ingest_within_flow_control(rs, end, fin, data_recvd, local_max_data);
}

/// Stream IDs are determined by initiator, direction and index
proof fn lemma_stream_id_decode(initiator: Side, dir: Dir, index: u64)
    requires
        index < 0x4000_0000_0000_0000,
    ensures
        spec_initiator(spec_stream_id(initiator, dir, index)) == initiator,
        spec_dir(spec_stream_id(initiator, dir, index)) == dir,
        spec_stream_id(initiator, dir, index) / 4 == index,
{
    crate::lemma_stream_id_parts(initiator, dir, index);
}

/// A sending half as it is created on first use, with the peer's limit `max`
pub open spec fn spec_fresh_send(s: Send, max: u64) -> bool {
    &&& s.max_data == max
    &&& s.state == SendState::Ready
    &&& s.pending.spec_offset() == 0
    &&& s.pending.spec_unsent() == 0
    &&& s.pending.spec_unacked_len() == 0
    &&& s.pending.spec_retransmits() == Set::<u64>::empty()
    &&& s.priority == 0
    &&& !s.fin_pending
    &&& !s.connection_blocked
}

/// Two sending halves that agree but for whether they are on the blocked list
pub open spec fn spec_same_but_blocked(a: Send, b: Send) -> bool {
    &&& a.max_data == b.max_data
    &&& a.state == b.state
    &&& a.pending == b.pending
    &&& a.priority == b.priority
    &&& a.fin_pending == b.fin_pending
}

/// Stream accounting of a connection
pub struct StreamsState {
    /// Whether the remote endpoint has opened streams the application doesn't know about yet,
    /// per direction
    pub opened: [bool; 2],
    /// Streams blocked on connection-level flow control or stream window space; streams are
    /// only added to this list when a write fails
    pub connection_blocked: Vec<StreamId>,
    /// Streams that exist with a sending half: open, or which the peer may open at once; the
    /// state is created on first use
    pub send: FxHashMap<u64, Option<Send>>,
    /// Streams that exist with a receiving half, likewise
    pub recv: FxHashMap<u64, Option<Recv>>,
    /// Events for the application
    pub events: VecDeque<StreamEvent>,
    /// Connection-level flow control budget dictated by the peer
    pub max_data: u64,
    /// Sum of current offsets of all send streams
    pub data_sent: u64,
    /// Total quantity of unacknowledged outgoing data
    pub unacked_data: u64,
    /// Configured upper bound for `unacked_data`
    pub send_window: u64,
    /// The peer's initial flow control limit for unidirectional streams
    pub initial_max_stream_data_uni: VarInt,
    /// The peer's initial flow control limit for the streams it initiates
    pub initial_max_stream_data_bidi_local: VarInt,
    /// The peer's initial flow control limit for the streams this endpoint initiates
    pub initial_max_stream_data_bidi_remote: VarInt,
    /// Maximum number of locally-initiated streams that may be opened, per direction
    pub max: [u64; 2],
    /// Maximum number of remotely-initiated streams that may be opened, per direction
    pub max_remote: [u64; 2],
    /// This endpoint's side
    pub side: Side,
    /// Streams with outgoing data queued
    pub pending: PendingStreamsQueue,
    /// Value of `max_remote` most recently sent to the peer in a MAX_STREAMS frame
    pub sent_max_remote: [u64; 2],
    /// Size of the desired stream flow control window
    pub max_concurrent_remote_count: [u64; 2],
    /// Number of locally-initiated streams opened, per direction
    pub next: [u64; 2],
    /// Number of outbound streams
    pub send_streams: usize,
    /// Configured upper bound for how much unacked data the peer can send us per stream
    pub stream_receive_window: u64,
    /// Limit on incoming data, which is transmitted through MAX_DATA frames
    pub local_max_data: u64,
    /// Sum of end offsets of all receive streams
    pub data_recvd: u64,
    /// Lowest remotely-initiated stream index that hasn't actually been opened by the peer
    pub next_remote: [u64; 2],
    /// Number of streams the peer may open and which aren't fully closed
    pub allocated_remote_count: [u64; 2],
    /// Next remote stream to report to the application, once opened
    pub next_reported_remote: [u64; 2],
    /// The shrink to be applied to `local_max_data` when the receive window is shrunk
    pub receive_window_shrink_debt: u64,
    /// The last value of MAX_DATA queued for transmission
    pub sent_max_data: VarInt,
    /// The initial receive window
    pub receive_window: u64,
    /// Whether `max_concurrent_remote_count` has ever changed
    pub flow_control_adjusted: bool,
}

impl StreamsState {
    /// Streams with a sending half
    pub open spec fn spec_send(&self) -> Set<u64> {
        self.send@.dom()
    }

    /// Streams with a receiving half
    pub open spec fn spec_recv(&self) -> Set<u64> {
        self.recv@.dom()
    }

    /// Every existing stream was opened by this side within `next`, or allowed to the peer
    /// within `max_remote`
    pub open spec fn wf(&self) -> bool {
        &&& self.max_remote@.len() == 2
        &&& self.next@.len() == 2
        &&& self.allocated_remote_count@.len() == 2
        &&& self.max_concurrent_remote_count@.len() == 2
        &&& self.next[0] <= 0x4000_0000_0000_0000
        &&& self.next[1] <= 0x4000_0000_0000_0000
        &&& self.max_remote[0] <= 0x4000_0000_0000_0000
        &&& self.max_remote[1] <= 0x4000_0000_0000_0000
        &&& spec_ids_allowed(self.send@.dom(), self.recv@.dom(), self.side, self.next@, self.max_remote@)
    }

    /// Stream `x` is within the streams opened by this side, or allowed to the peer
    pub open spec fn spec_allowed(&self, x: u64) -> bool {
        if spec_initiator(x) == self.side {
            x / 4 < self.next[spec_di(spec_dir(x))]
        } else {
            x / 4 < self.max_remote[spec_di(spec_dir(x))]
        }
    }

    /// Add stream `id`, opened by the peer if `remote`: a bidirectional stream has both halves,
    /// a unidirectional one only the half this side uses
    fn insert(&mut self, remote: bool, id: StreamId)
        requires
            !old(self).spec_send().contains(id.0),
            !old(self).spec_recv().contains(id.0),
        ensures
            final(self).send@ == if spec_dir(id.0) == Dir::Bi || !remote {
                old(self).send@.insert(id.0, None)
            } else {
                old(self).send@
            },
            final(self).recv@ == if spec_dir(id.0) == Dir::Bi || remote {
                old(self).recv@.insert(id.0, None)
            } else {
                old(self).recv@
            },
            final(self).side == old(self).side,
            final(self).next == old(self).next,
            final(self).max_remote == old(self).max_remote,
            final(self).max == old(self).max,
            final(self).allocated_remote_count == old(self).allocated_remote_count,
            final(self).max_concurrent_remote_count == old(self).max_concurrent_remote_count,
            final(self).send_streams == old(self).send_streams,
            final(self).events == old(self).events,
            final(self).opened == old(self).opened,
            final(self).next_remote == old(self).next_remote,
            final(self).connection_blocked == old(self).connection_blocked,
    {
        let bi = match id.dir() {
            Dir::Bi => true,
            Dir::Uni => false,
        };
        if bi || !remote {
            fx_map_insert(&mut self.send, id.0, None);
        }
        if bi || remote {
            fx_map_insert(&mut self.recv, id.0, None);
        }
    }

    /// The streams this side starts with: the peer may open `max_remote_bi` bidirectional and
    /// `max_remote_uni` unidirectional streams
    pub fn new(
        side: Side,
        max_remote_uni: VarInt,
        max_remote_bi: VarInt,
        send_window: u64,
        receive_window: VarInt,
        stream_receive_window: VarInt,
    ) -> (r: StreamsState)
        ensures
            r.wf(),
            r.side == side,
            r.max_remote@ == seq![max_remote_bi@, max_remote_uni@],
            r.next@ == seq![0u64, 0u64],
            r.max@ == seq![0u64, 0u64],
            r.send@ == spec_unopened::<Send>(spec_ids_below(spec_other(side), Dir::Bi, max_remote_bi@)),
            r.recv@ == spec_unopened::<Recv>(
                spec_ids_below(spec_other(side), Dir::Bi, max_remote_bi@).union(
                    spec_ids_below(spec_other(side), Dir::Uni, max_remote_uni@),
                ),
            ),
            r.connection_blocked@.len() == 0,
            r.allocated_remote_count@ == seq![max_remote_bi@, max_remote_uni@],
            r.max_concurrent_remote_count@ == seq![max_remote_bi@, max_remote_uni@],
            r.local_max_data == receive_window@,
            r.send_streams == 0,
            r.max_data == 0,
            r.data_sent == 0,
            r.unacked_data == 0,
            r.send_window == send_window,
    {
        let bi = max_remote_bi.into_inner();
        let uni = max_remote_uni.into_inner();
        let peer = other_side(side);
        let mut send: FxHashMap<u64, Option<Send>> = FxHashMap::default();
        let mut recv: FxHashMap<u64, Option<Recv>> = FxHashMap::default();
        proof {
            assert(send@ =~= spec_unopened::<Send>(spec_ids_below(peer, Dir::Bi, 0)));
            assert(recv@ =~= spec_unopened::<Recv>(spec_ids_below(peer, Dir::Bi, 0)));
        }
        let mut i: u64 = 0;
        while i < bi
            invariant
                bi < VARINT_BOUND,
                i <= bi,
                send@ == spec_unopened::<Send>(spec_ids_below(peer, Dir::Bi, i)),
                recv@ == spec_unopened::<Recv>(spec_ids_below(peer, Dir::Bi, i)),
            decreases bi - i,
        {
            let id = StreamId::new(peer, Dir::Bi, i);
            proof {
                lemma_stream_id_decode(peer, Dir::Bi, i);
            }
            fx_map_insert(&mut send, id.0, None);
            fx_map_insert(&mut recv, id.0, None);
            i = i + 1;
            proof {
                assert(send@ =~= spec_unopened::<Send>(spec_ids_below(peer, Dir::Bi, i)));
                assert(recv@ =~= spec_unopened::<Recv>(spec_ids_below(peer, Dir::Bi, i)));
            }
        }
        proof {
            assert(recv@ =~= spec_unopened::<Recv>(spec_ids_below(peer, Dir::Bi, bi).union(spec_ids_below(peer, Dir::Uni, 0))));
        }
        let mut i: u64 = 0;
        while i < uni
            invariant
                uni < VARINT_BOUND,
                i <= uni,
                recv@ == spec_unopened::<Recv>(spec_ids_below(peer, Dir::Bi, bi).union(spec_ids_below(peer, Dir::Uni, i))),
            decreases uni - i,
        {
            let id = StreamId::new(peer, Dir::Uni, i);
            proof {
                lemma_stream_id_decode(peer, Dir::Uni, i);
            }
            fx_map_insert(&mut recv, id.0, None);
            i = i + 1;
            proof {
                assert(recv@ =~= spec_unopened::<Recv>(spec_ids_below(peer, Dir::Bi, bi).union(spec_ids_below(peer, Dir::Uni, i))));
            }
        }
        let this = StreamsState {
            opened: [false, false],
            connection_blocked: Vec::new(),
            send,
            recv,
            events: VecDeque::new(),
            max_data: 0,
            data_sent: 0,
            unacked_data: 0,
            send_window,
            initial_max_stream_data_uni: VarInt::from_u32(0),
            initial_max_stream_data_bidi_local: VarInt::from_u32(0),
            initial_max_stream_data_bidi_remote: VarInt::from_u32(0),
            max: [0, 0],
            max_remote: [bi, uni],
            side,
            pending: PendingStreamsQueue::new(),
            sent_max_remote: [bi, uni],
            max_concurrent_remote_count: [bi, uni],
            next: [0, 0],
            send_streams: 0,
            stream_receive_window: stream_receive_window.into_inner(),
            local_max_data: receive_window.into_inner(),
            data_recvd: 0,
            next_remote: [0, 0],
            allocated_remote_count: [bi, uni],
            next_reported_remote: [0, 0],
            receive_window_shrink_debt: 0,
            sent_max_data: receive_window,
            receive_window: receive_window.into_inner(),
            flow_control_adjusted: false,
        };
        proof {
            assert forall|x: u64| this.spec_send().contains(x) || this.spec_recv().contains(x) implies this.spec_allowed(x) by {
                match side {
                    Side::Client => {},
                    Side::Server => {},
                }
            }
        }
        this
    }

    /// The maximum amount of data that may be written on the connection: what connection-level
    /// flow control and the send window both allow
    pub fn write_limit(&self) -> (r: u64)
        requires
            self.data_sent <= self.max_data,
            self.unacked_data <= self.send_window,
        ensures
            r == if self.max_data - self.data_sent < self.send_window - self.unacked_data {
                self.max_data - self.data_sent
            } else {
                self.send_window - self.unacked_data
            },
    {
        let a = self.max_data - self.data_sent;
        let b = self.send_window - self.unacked_data;
        if a < b {
            a
        } else {
            b
        }
    }

    /// Handle an increase of the connection-level flow control limit to `n`
    pub fn received_max_data(&mut self, n: VarInt)
        ensures
            final(self).max_data == if old(self).max_data > n@ {
                old(self).max_data
            } else {
                n@
            },
            *final(self) == (StreamsState { max_data: final(self).max_data, ..*old(self) }),
    {
        let n = n.into_inner();
        if n > self.max_data {
            self.max_data = n;
        }
    }

    /// Take in the peer's transport parameters: the initial stream data limits and stream
    /// counts, and the connection-level limit; the bidirectional streams the peer may open
    /// already get its limit for them
    pub fn set_params(&mut self, params: &TransportParameters)
        requires
            old(self).wf(),
            old(self).max@.len() == 2,
        ensures
            final(self).wf(),
            final(self).initial_max_stream_data_uni == params.initial_max_stream_data_uni,
            final(self).initial_max_stream_data_bidi_local == params.initial_max_stream_data_bidi_local,
            final(self).initial_max_stream_data_bidi_remote == params.initial_max_stream_data_bidi_remote,
            final(self).max@ == seq![params.initial_max_streams_bidi@, params.initial_max_streams_uni@],
            final(self).max_data == if old(self).max_data > params.initial_max_data@ {
                old(self).max_data
            } else {
                params.initial_max_data@
            },
            final(self).send@ == spec_with_max_data(
                old(self).send@,
                spec_ids_below(spec_other(old(self).side), Dir::Bi, old(self).max_remote[0]),
                params.initial_max_stream_data_bidi_local@,
            ),
            final(self).recv@ == old(self).recv@,
            final(self).side == old(self).side,
            final(self).next == old(self).next,
            final(self).max_remote == old(self).max_remote,
    {
        self.initial_max_stream_data_uni = params.initial_max_stream_data_uni;
        self.initial_max_stream_data_bidi_local = params.initial_max_stream_data_bidi_local;
        self.initial_max_stream_data_bidi_remote = params.initial_max_stream_data_bidi_remote;
        self.max = [params.initial_max_streams_bidi.into_inner(), params.initial_max_streams_uni.into_inner()];
        self.received_max_data(params.initial_max_data);
        let peer = other_side(self.side);
        let v = params.initial_max_stream_data_bidi_local.into_inner();
        let n = self.max_remote[0];
        let ghost s0 = self.send@;
        proof {
            assert(spec_with_max_data(s0, spec_ids_below(peer, Dir::Bi, 0), v) =~= s0);
        }
        let mut i: u64 = 0;
        while i < n
            invariant
                i <= n,
                n == old(self).max_remote[0],
                old(self).wf(),
                peer == spec_other(old(self).side),
                s0 == old(self).send@,
                self.send@ == spec_with_max_data(s0, spec_ids_below(peer, Dir::Bi, i), v),
                self.recv@ == old(self).recv@,
                self.side == old(self).side,
                self.next == old(self).next,
                self.max_remote == old(self).max_remote,
                self.initial_max_stream_data_uni == params.initial_max_stream_data_uni,
                self.initial_max_stream_data_bidi_local == params.initial_max_stream_data_bidi_local,
                self.initial_max_stream_data_bidi_remote == params.initial_max_stream_data_bidi_remote,
                self.max@ == seq![params.initial_max_streams_bidi@, params.initial_max_streams_uni@],
                self.max_data == if old(self).max_data > params.initial_max_data@ {
                    old(self).max_data
                } else {
                    params.initial_max_data@
                },
                self.allocated_remote_count == old(self).allocated_remote_count,
                self.max_concurrent_remote_count == old(self).max_concurrent_remote_count,
            decreases n - i,
        {
            let id = StreamId::new(peer, Dir::Bi, i);
            let ghost before = self.send@;
            let ghost below = spec_ids_below(peer, Dir::Bi, i);
            proof {
                lemma_stream_id_decode(peer, Dir::Bi, i);
                lemma_ids_below_step(peer, Dir::Bi, i);
            }
            match fx_map_remove(&mut self.send, id.0) {
                Some(Some(mut st)) => {
                    st.max_data = v;
                    fx_map_insert(&mut self.send, id.0, Some(st));
                },
                Some(None) => {
                    fx_map_insert(&mut self.send, id.0, None);
                },
                None => {},
            }
            i = i + 1;
            proof {
                assert(self.send@ =~= spec_with_max_data(s0, below.insert(id.0), v));
            }
        }
    }

    /// Whether a locally initiated stream has never been opened
    pub fn is_local_unopened(&self, id: StreamId) -> (r: bool)
        requires
            self.next@.len() == 2,
        ensures
            r == (id.0 / 4 >= self.next[spec_di(spec_dir(id.0))]),
    {
        id.index() >= self.next[dir_index(id.dir())]
    }

    /// The peer's initial flow control limit for stream `x`
    pub open spec fn spec_max_send_data(&self, x: u64) -> VarInt {
        if spec_dir(x) == Dir::Uni {
            self.initial_max_stream_data_uni
        } else if self.side != spec_initiator(x) {
            self.initial_max_stream_data_bidi_local
        } else {
            self.initial_max_stream_data_bidi_remote
        }
    }

    /// The peer's initial flow control limit for stream `id`
    pub fn max_send_data(&self, id: StreamId) -> (r: VarInt)
        ensures
            r == if spec_dir(id.0) == Dir::Uni {
                self.initial_max_stream_data_uni
            } else if self.side != spec_initiator(id.0) {
                self.initial_max_stream_data_bidi_local
            } else {
                self.initial_max_stream_data_bidi_remote
            },
    {
        let remote = match (self.side, id.initiator()) {
            (Side::Client, Side::Client) | (Side::Server, Side::Server) => false,
            _ => true,
        };
        match id.dir() {
            Dir::Uni => self.initial_max_stream_data_uni,
            Dir::Bi => if remote {
                self.initial_max_stream_data_bidi_local
            } else {
                self.initial_max_stream_data_bidi_remote
            },
        }
    }

    /// The error, if any, entailed by the peer's use of stream `x` as a send stream
    pub open spec fn spec_receive_id_error(&self, x: u64) -> Option<Code> {
        if spec_initiator(x) == self.side {
            if spec_dir(x) == Dir::Uni || x / 4 >= self.next[0] {
                Some(Code::STREAM_STATE_ERROR())
            } else {
                None
            }
        } else if x / 4 >= self.max_remote[spec_di(spec_dir(x))] {
            Some(Code::STREAM_LIMIT_ERROR())
        } else {
            None
        }
    }

    /// The receive half of stream `x` as a frame finds it: its state, or fresh state for a
    /// stream the peer may open but has not used yet
    pub open spec fn spec_recv_or_new(&self, x: u64) -> Recv {
        match self.recv@[x] {
            Some(r) => r,
            None => spec_new_recv(self.stream_receive_window),
        }
    }

    /// Check for errors entailed by the peer's use of `id` as a send stream: a stream this side
    /// initiated must be bidirectional and opened; one the peer initiated must be within its
    /// limit
    pub fn validate_receive_id(&self, id: StreamId) -> (r: Result<(), TransportError>)
        requires
            self.next@.len() == 2,
            self.max_remote@.len() == 2,
        ensures
            spec_initiator(id.0) == self.side && spec_dir(id.0) == Dir::Uni ==> r is Err
                && r->Err_0.code == Code::STREAM_STATE_ERROR() && r->Err_0.reason@
                == "illegal operation on send-only stream"@,
            spec_initiator(id.0) == self.side && spec_dir(id.0) == Dir::Bi ==> if id.0 / 4
                >= self.next[0] {
                r is Err && r->Err_0.code == Code::STREAM_STATE_ERROR() && r->Err_0.reason@
                    == "operation on unopened stream"@
            } else {
                r is Ok
            },
            spec_initiator(id.0) != self.side ==> if id.0 / 4 >= self.max_remote[spec_di(
                spec_dir(id.0),
            )] {
                r is Err && r->Err_0.code == Code::STREAM_LIMIT_ERROR()
            } else {
                r is Ok
            },
            match self.spec_receive_id_error(id.0) {
                Some(c) => r is Err && r->Err_0.code == c,
                None => r is Ok,
            },
    {
        let mine = match (self.side, id.initiator()) {
            (Side::Client, Side::Client) | (Side::Server, Side::Server) => true,
            _ => false,
        };
        if mine {
            match id.dir() {
                Dir::Uni => {
                    return Err(TransportError::STREAM_STATE_ERROR("illegal operation on send-only stream"));
                },
                Dir::Bi => {
                    if id.index() >= self.next[0] {
                        return Err(TransportError::STREAM_STATE_ERROR("operation on unopened stream"));
                    }
                },
            }
        } else {
            let limit = self.max_remote[dir_index(id.dir())];
            if id.index() >= limit {
                return Err(TransportError::STREAM_LIMIT_ERROR(""));
            }
        }
        Ok(())
    }

    /// Handle a MAX_STREAMS frame raising the number of streams of direction `dir` this side
    /// may open to `count`; a count beyond 2^60 cannot be encoded in a stream ID
    pub fn received_max_streams(&mut self, dir: Dir, count: u64) -> (r: Result<(), TransportError>)
        requires
            old(self).max@.len() == 2,
        ensures
            count > MAX_STREAM_COUNT ==> r is Err && r->Err_0.code == Code::FRAME_ENCODING_ERROR()
                && final(self).max == old(self).max && final(self).events@ == old(self).events@,
            count <= MAX_STREAM_COUNT ==> r is Ok && if count > old(self).max[spec_di(dir)] {
                final(self).max@ == old(self).max@.update(spec_di(dir), count) && final(self).events@
                    == old(self).events@.push(StreamEvent::Available { dir })
            } else {
                final(self).max == old(self).max && final(self).events@ == old(self).events@
            },
    {
        if count > MAX_STREAM_COUNT {
            return Err(TransportError::FRAME_ENCODING_ERROR("unrepresentable stream limit"));
        }
        let d = dir_index(dir);
        if count > self.max[d] {
            self.max[d] = count;
            self.events.push_back(StreamEvent::Available { dir });
        }
        Ok(())
    }

    /// Open a locally initiated stream of direction `dir`, unless the connection is closed or
    /// the streams of that direction are exhausted
    pub fn open(&mut self, conn_closed: bool, dir: Dir) -> (r: Option<StreamId>)
        requires
            old(self).wf(),
            old(self).max@.len() == 2,
            old(self).max[spec_di(dir)] < 0x4000_0000_0000_0000,
            old(self).send_streams < usize::MAX,
        ensures
            final(self).wf(),
            conn_closed || old(self).next[spec_di(dir)] >= old(self).max[spec_di(dir)] ==> r is None
                && final(self).next == old(self).next && final(self).spec_send() == old(self).spec_send() && final(self).spec_recv() == old(self).spec_recv(),
            !(conn_closed || old(self).next[spec_di(dir)] >= old(self).max[spec_di(dir)]) ==> r
                == Some(StreamId(spec_stream_id(old(self).side, dir, old(self).next[spec_di(dir)])))
                && final(self).next@ == old(self).next@.update(
                spec_di(dir),
                (old(self).next[spec_di(dir)] + 1) as u64,
            ) && final(self).send_streams == old(self).send_streams + 1
                && final(self).spec_send().contains(r->Some_0.0),
    {
        if conn_closed {
            return None;
        }
        let d = dir_index(dir);
        if self.next[d] >= self.max[d] {
            return None;
        }
        let index = self.next[d];
        let id = StreamId::new(self.side, dir, index);
        proof {
            lemma_stream_id_decode(self.side, dir, index);
            if self.spec_send().contains(id.0) {
                assert(self.spec_allowed(id.0));
            }
            if self.spec_recv().contains(id.0) {
                assert(self.spec_allowed(id.0));
            }
        }
        self.next[d] = index + 1;
        self.insert(false, id);
        self.send_streams = self.send_streams + 1;
        proof {
            assert forall|x: u64| self.spec_send().contains(x) || self.spec_recv().contains(x) implies self.spec_allowed(x) by {
                if x != id.0 {
                    if old(self).spec_send().contains(x) {
                        assert(old(self).spec_allowed(x));
                    } else {
                        assert(old(self).spec_recv().contains(x));
                        assert(old(self).spec_allowed(x));
                    }
                }
            }
        }
        Some(id)
    }

    /// Notify the application that new streams were opened by the peer, or that stream
    /// `stream` became readable if `notify_readable`
    pub fn on_stream_frame(&mut self, notify_readable: bool, stream: StreamId)
        requires
            old(self).next_remote@.len() == 2,
            old(self).opened@.len() == 2,
            stream.0 / 4 < u64::MAX,
        ensures
            (final(self).next_remote@, final(self).opened@, final(self).events@)
                == spec_stream_frame_effect(
                old(self).side,
                old(self).next_remote@,
                old(self).opened@,
                old(self).events@,
                notify_readable,
                stream,
            ),
            *final(self) == (StreamsState {
                next_remote: final(self).next_remote,
                opened: final(self).opened,
                events: final(self).events,
                ..*old(self)
            }),
    {
        let mine = match (self.side, stream.initiator()) {
            (Side::Client, Side::Client) | (Side::Server, Side::Server) => true,
            _ => false,
        };
        if mine {
            if notify_readable {
                self.events.push_back(StreamEvent::Readable { id: stream });
            }
            return;
        }
        let d = dir_index(stream.dir());
        if stream.index() >= self.next_remote[d] {
            self.next_remote[d] = stream.index() + 1;
            self.opened[d] = true;
        } else if notify_readable {
            self.events.push_back(StreamEvent::Readable { id: stream });
        }
    }

    /// Adds credits to the connection flow control window, after paying off any debt from a
    /// shrunk receive window; returns whether a MAX_DATA frame is worth sending: whether the
    /// window moved by an eighth of the receive window since the last one
    pub fn add_read_credits(&mut self, credits: u64) -> (r: ShouldTransmit)
        ensures
            credits > old(self).receive_window_shrink_debt ==> final(self).receive_window_shrink_debt
                == 0 && final(self).local_max_data == if old(self).local_max_data + (credits
                - old(self).receive_window_shrink_debt) > u64::MAX {
                u64::MAX as int
            } else {
                old(self).local_max_data + (credits - old(self).receive_window_shrink_debt)
            },
            credits <= old(self).receive_window_shrink_debt ==> final(self).receive_window_shrink_debt
                == old(self).receive_window_shrink_debt - credits && final(self).local_max_data
                == old(self).local_max_data,
            r.0 == (final(self).local_max_data < VARINT_BOUND && final(self).local_max_data
                >= final(self).sent_max_data@ && final(self).local_max_data
                - final(self).sent_max_data@ >= final(self).receive_window / 8),
            final(self).sent_max_data == old(self).sent_max_data,
            final(self).receive_window == old(self).receive_window,
    {
        if credits > self.receive_window_shrink_debt {
            let net_credits = credits - self.receive_window_shrink_debt;
            self.local_max_data = self.local_max_data.saturating_add(net_credits);
            self.receive_window_shrink_debt = 0;
        } else {
            self.receive_window_shrink_debt = self.receive_window_shrink_debt - credits;
        }
        if self.local_max_data >= VARINT_BOUND {
            return ShouldTransmit(false);
        }
        let sent = self.sent_max_data.into_inner();
        if self.local_max_data < sent {
            return ShouldTransmit(false);
        }
        let diff = self.local_max_data - sent;
        ShouldTransmit(diff >= self.receive_window / 8)
    }

    /// Queue MAX_STREAMS frames in `pending` for each direction where the peer's stream limit
    /// moved by more than an eighth of the window since it was last announced; returns whether
    /// any was queued
    pub fn queue_max_stream_id(&mut self, pending: &mut Retransmits) -> (r: bool)
        requires
            old(self).max_remote@.len() == 2,
            old(self).sent_max_remote@.len() == 2,
            old(self).max_concurrent_remote_count@.len() == 2,
            old(pending).max_stream_id@.len() == 2,
            old(self).sent_max_remote[0] <= old(self).max_remote[0],
            old(self).sent_max_remote[1] <= old(self).max_remote[1],
        ensures
            forall|d: int|
                0 <= d < 2 ==> #[trigger] final(pending).max_stream_id@[d] == (old(pending).max_stream_id@[d] || old(self).max_remote[d] - old(self).sent_max_remote[d] > old(self).max_concurrent_remote_count[d] / 8),
            r == (old(self).max_remote[0] - old(self).sent_max_remote[0]
                > old(self).max_concurrent_remote_count[0] / 8 || old(self).max_remote[1]
                - old(self).sent_max_remote[1] > old(self).max_concurrent_remote_count[1] / 8),
    {
        let mut queued = false;
        let mut d: usize = 0;
        while d < 2
            invariant
                d <= 2,
                self.max_remote@.len() == 2,
                self.sent_max_remote@.len() == 2,
                self.max_concurrent_remote_count@.len() == 2,
                self.max_remote == old(self).max_remote,
                self.sent_max_remote == old(self).sent_max_remote,
                self.max_concurrent_remote_count == old(self).max_concurrent_remote_count,
                pending.max_stream_id@.len() == 2,
                self.sent_max_remote[0] <= self.max_remote[0],
                self.sent_max_remote[1] <= self.max_remote[1],
                forall|e: int|
                    0 <= e < d ==> #[trigger] pending.max_stream_id@[e] == (old(pending).max_stream_id@[e] || self.max_remote[e] - self.sent_max_remote[e]
                        > self.max_concurrent_remote_count[e] / 8),
                forall|e: int| d <= e < 2 ==> #[trigger] pending.max_stream_id@[e] == old(pending).max_stream_id@[e],
                queued == exists|e: int|
                    0 <= e < d && #[trigger] self.max_concurrent_remote_count[e] / 8 < self.max_remote[e]
                        - self.sent_max_remote[e],
            decreases 2 - d,
        {
            let diff = self.max_remote[d] - self.sent_max_remote[d];
            if diff > self.max_concurrent_remote_count[d] / 8 {
                pending.max_stream_id[d] = true;
                queued = true;
            }
            d = d + 1;
        }
        proof {
            if self.max_remote[0] - self.sent_max_remote[0] > self.max_concurrent_remote_count[0] / 8 {
                assert(self.max_concurrent_remote_count[0] / 8 < self.max_remote[0] - self.sent_max_remote[0]);
            }
            if self.max_remote[1] - self.sent_max_remote[1] > self.max_concurrent_remote_count[1] / 8 {
                assert(self.max_concurrent_remote_count[1] / 8 < self.max_remote[1] - self.sent_max_remote[1]);
            }
        }
        queued
    }

    /// Make room for a full flow control window of streams of direction `dir` that the peer
    /// may open: streams are added for the peer up to `max_concurrent_remote_count`
    pub fn ensure_remote_streams(&mut self, dir: Dir)
        requires
            old(self).wf(),
            old(self).max_remote[spec_di(dir)] + spec_sat_sub(
                old(self).max_concurrent_remote_count[spec_di(dir)],
                old(self).allocated_remote_count[spec_di(dir)],
            ) <= 0x4000_0000_0000_0000,
        ensures
            final(self).wf(),
            ({
                let d = spec_di(dir);
                let n = spec_sat_sub(
                    old(self).max_concurrent_remote_count[d],
                    old(self).allocated_remote_count[d],
                );
                let ids = spec_ids_between(
                    spec_other(old(self).side),
                    dir,
                    old(self).max_remote[d],
                    old(self).max_remote[d] + n,
                );
                &&& final(self).max_remote@ == old(self).max_remote@.update(d, (old(self).max_remote[d] + n) as u64)
                &&& final(self).allocated_remote_count@ == old(self).allocated_remote_count@.update(
                    d,
                    (old(self).allocated_remote_count[d] + n) as u64,
                )
                &&& final(self).send@ == if dir == Dir::Bi {
                    old(self).send@.union_prefer_right(spec_unopened::<Send>(ids))
                } else {
                    old(self).send@
                }
                &&& final(self).recv@ == old(self).recv@.union_prefer_right(spec_unopened::<Recv>(ids))
            }),
            final(self).side == old(self).side,
            final(self).next == old(self).next,
            final(self).max == old(self).max,
            final(self).max_concurrent_remote_count == old(self).max_concurrent_remote_count,
            final(self).send_streams == old(self).send_streams,
            final(self).events == old(self).events,
            final(self).opened == old(self).opened,
            final(self).next_remote == old(self).next_remote,
            final(self).connection_blocked == old(self).connection_blocked,
    {
        let d = dir_index(dir);
        let new_count = self.max_concurrent_remote_count[d].saturating_sub(self.allocated_remote_count[d]);
        let base = self.max_remote[d];
        let peer = other_side(self.side);
        let ghost s0 = self.send@;
        let ghost r0 = self.recv@;
        proof {
            assert(s0.union_prefer_right(spec_unopened::<Send>(spec_ids_between(peer, dir, base, base as int))) =~= s0);
            assert(r0.union_prefer_right(spec_unopened::<Recv>(spec_ids_between(peer, dir, base, base as int))) =~= r0);
        }
        let mut i: u64 = 0;
        while i < new_count
            invariant
                i <= new_count,
                base + new_count <= 0x4000_0000_0000_0000,
                base == old(self).max_remote[d as int],
                d == spec_di(dir),
                peer == spec_other(old(self).side),
                old(self).wf(),
                self.side == old(self).side,
                self.next == old(self).next,
                self.max_remote == old(self).max_remote,
                self.max == old(self).max,
                self.allocated_remote_count == old(self).allocated_remote_count,
                self.max_concurrent_remote_count == old(self).max_concurrent_remote_count,
                self.send_streams == old(self).send_streams,
                self.events == old(self).events,
                self.opened == old(self).opened,
                self.next_remote == old(self).next_remote,
                self.connection_blocked == old(self).connection_blocked,
                s0 == old(self).send@,
                r0 == old(self).recv@,
                self.send@ == if dir == Dir::Bi {
                    s0.union_prefer_right(spec_unopened::<Send>(spec_ids_between(peer, dir, base, base + i)))
                } else {
                    s0
                },
                self.recv@ == r0.union_prefer_right(spec_unopened::<Recv>(spec_ids_between(peer, dir, base, base + i))),
            decreases new_count - i,
        {
            let id = StreamId::new(peer, dir, base + i);
            proof {
                lemma_stream_id_decode(peer, dir, (base + i) as u64);
                if s0.dom().contains(id.0) {
                    assert(old(self).spec_allowed(id.0));
                }
                if r0.dom().contains(id.0) {
                    assert(old(self).spec_allowed(id.0));
                }
            }
            self.insert(true, id);
            i = i + 1;
            proof {
                assert(self.recv@ =~= r0.union_prefer_right(spec_unopened::<Recv>(spec_ids_between(peer, dir, base, base + i))));
                if dir == Dir::Bi {
                    assert(self.send@ =~= s0.union_prefer_right(spec_unopened::<Send>(spec_ids_between(peer, dir, base, base + i))));
                }
            }
        }
        self.allocated_remote_count[d] = self.allocated_remote_count[d] + new_count;
        self.max_remote[d] = base + new_count;
        proof {
            assert forall|x: u64| self.spec_send().contains(x) || self.spec_recv().contains(x) implies self.spec_allowed(x) by {
                if s0.dom().contains(x) || r0.dom().contains(x) {
                    assert(old(self).spec_allowed(x));
                }
            }
        }
    }

    /// Update the counters for the removal of half `half` of stream `id`: a stream of the peer
    /// that is now fully freed makes room for another
    pub fn stream_freed(&mut self, id: StreamId, half: StreamHalf)
        requires
            old(self).wf(),
            spec_free_allowed(
                old(self).side,
                old(self).spec_send(),
                old(self).spec_recv(),
                old(self).allocated_remote_count@,
                old(self).max_remote@,
                old(self).max_concurrent_remote_count@,
                old(self).send_streams,
                id.0,
                half,
            ),
        ensures
            final(self).wf(),
            spec_after_free(
                *final(self),
                old(self).side,
                old(self).send@,
                old(self).recv@,
                old(self).allocated_remote_count@,
                old(self).max_remote@,
                old(self).max_concurrent_remote_count@,
                old(self).send_streams,
                id.0,
                half,
            ),
            final(self).side == old(self).side,
            final(self).next == old(self).next,
            final(self).max == old(self).max,
            final(self).max_concurrent_remote_count == old(self).max_concurrent_remote_count,
            final(self).events == old(self).events,
            final(self).opened == old(self).opened,
            final(self).next_remote == old(self).next_remote,
            final(self).connection_blocked == old(self).connection_blocked,
    {
        let mine = match (self.side, id.initiator()) {
            (Side::Client, Side::Client) | (Side::Server, Side::Server) => true,
            _ => false,
        };
        if !mine {
            let fully_free = match id.dir() {
                Dir::Uni => true,
                Dir::Bi => match half {
                    StreamHalf::Send => !fx_map_contains(&self.recv, id.0),
                    StreamHalf::Recv => !fx_map_contains(&self.send, id.0),
                },
            };
            if fully_free {
                let d = dir_index(id.dir());
                self.allocated_remote_count[d] = self.allocated_remote_count[d] - 1;
                self.ensure_remote_streams(id.dir());
                proof {
                    assert(self.allocated_remote_count@ =~= old(self).allocated_remote_count@.update(
                        d as int,
                        self.allocated_remote_count@[d as int],
                    ));
                }
            }
        }
        match half {
            StreamHalf::Send => {
                self.send_streams = self.send_streams - 1;
            },
            StreamHalf::Recv => {},
        }
    }

    /// Handle the acknowledgement of a reset of stream `id`: the stream's send half is freed
    pub fn reset_acked(&mut self, id: StreamId)
        requires
            old(self).wf(),
            spec_send_state_is(old(self).send@, id.0, SendState::ResetSent) ==> spec_free_allowed(
                old(self).side,
                old(self).spec_send().remove(id.0),
                old(self).spec_recv(),
                old(self).allocated_remote_count@,
                old(self).max_remote@,
                old(self).max_concurrent_remote_count@,
                old(self).send_streams,
                id.0,
                StreamHalf::Send,
            ),
        ensures
            final(self).wf(),
            spec_send_state_is(old(self).send@, id.0, SendState::ResetSent) ==> spec_after_free(
                *final(self),
                old(self).side,
                old(self).send@.remove(id.0),
                old(self).recv@,
                old(self).allocated_remote_count@,
                old(self).max_remote@,
                old(self).max_concurrent_remote_count@,
                old(self).send_streams,
                id.0,
                StreamHalf::Send,
            ),
            !spec_send_state_is(old(self).send@, id.0, SendState::ResetSent) ==> *final(self)
                == *old(self),
            final(self).side == old(self).side,
            final(self).next == old(self).next,
            final(self).events == old(self).events,
    {
        let reset = match fx_map_get(&self.send, id.0) {
            Some(Some(s)) => s.is_reset(),
            _ => false,
        };
        if reset {
            fx_map_remove(&mut self.send, id.0);
            proof {
                assert(self.spec_send() =~= old(self).spec_send().remove(id.0));
                assert forall|x: u64| self.spec_send().contains(x) implies old(self).spec_send().contains(x) by {}
            }
            self.stream_freed(id, StreamHalf::Send);
        }
    }

    /// Whether MAX_STREAM_DATA frames could be sent for stream `id`
    pub fn can_send_flow_control(&self, id: StreamId) -> (r: bool)
        ensures
            r == (self.recv@.contains_key(id.0) && self.recv@[id.0] is Some
                && self.recv@[id.0]->Some_0.state == (RecvState::Recv { size: None })
                && !self.recv@[id.0]->Some_0.stopped),
    {
        match fx_map_get(&self.recv, id.0) {
            Some(Some(r)) => r.can_send_flow_control(),
            _ => false,
        }
    }

    /// Whether any stream data is queued, regardless of control frames: whether a queued
    /// stream has a send half that is not reset
    pub fn can_send_stream_data(&self) -> (r: bool)
        ensures
            r == exists|i: int|
                0 <= i < self.pending.queued().len() && #[trigger] spec_sendable(
                    self.send@,
                    self.pending.queued()[i].0,
                ),
    {
        let n = self.pending.len();
        let mut i: usize = 0;
        while i < n
            invariant
                i <= n,
                n == self.pending.queued().len(),
                forall|j: int| 0 <= j < i ==> !#[trigger] spec_sendable(self.send@, self.pending.queued()[j].0),
            decreases n - i,
        {
            let id = self.pending.get(i);
            let sendable = match fx_map_get(&self.send, id.0) {
                Some(Some(s)) => !s.is_reset(),
                _ => false,
            };
            if sendable {
                assert(spec_sendable(self.send@, self.pending.queued()[i as int].0));
                return true;
            }
            i = i + 1;
        }
        false
    }

    /// Drop the streams of direction `dir` this side opened
    fn drop_local_streams(&mut self, dir: Dir)
        requires
            old(self).next@.len() == 2,
            old(self).next[spec_di(dir)] <= 0x4000_0000_0000_0000,
            forall|x: u64| #[trigger]
                spec_ids_below(old(self).side, dir, old(self).next[spec_di(dir)]).contains(x)
                    ==> old(self).spec_send().contains(x) && (dir == Dir::Bi ==> old(
                    self).spec_recv().contains(x)),
        ensures
            final(self).send@ == old(self).send@.remove_keys(
                spec_ids_below(old(self).side, dir, old(self).next[spec_di(dir)]),
            ),
            final(self).recv@ == if dir == Dir::Bi {
                old(self).recv@.remove_keys(
                    spec_ids_below(old(self).side, dir, old(self).next[spec_di(dir)]),
                )
            } else {
                old(self).recv@
            },
            final(self).next == old(self).next,
            final(self).side == old(self).side,
            final(self).max_remote == old(self).max_remote,
            final(self).allocated_remote_count == old(self).allocated_remote_count,
            final(self).max_concurrent_remote_count == old(self).max_concurrent_remote_count,
            final(self).events == old(self).events,
            final(self).sent_max_remote == old(self).sent_max_remote,
            final(self).flow_control_adjusted == old(self).flow_control_adjusted,
            final(self).pending.spec_recency() == old(self).pending.spec_recency(),
    {
        let d = dir_index(dir);
        let n = self.next[d];
        let side = self.side;
        let ghost s0 = self.send@;
        let ghost r0 = self.recv@;
        proof {
            assert(s0.remove_keys(spec_ids_below(side, dir, 0)) =~= s0);
            assert(r0.remove_keys(spec_ids_below(side, dir, 0)) =~= r0);
        }
        let mut i: u64 = 0;
        while i < n
            invariant
                i <= n,
                n == old(self).next[d as int],
                n <= 0x4000_0000_0000_0000,
                d == spec_di(dir),
                side == old(self).side,
                s0 == old(self).send@,
                r0 == old(self).recv@,
                forall|x: u64| #[trigger]
                    spec_ids_below(side, dir, n).contains(x) ==> s0.dom().contains(x) && (dir
                        == Dir::Bi ==> r0.dom().contains(x)),
                self.send@ == s0.remove_keys(spec_ids_below(side, dir, i)),
                self.recv@ == if dir == Dir::Bi {
                    r0.remove_keys(spec_ids_below(side, dir, i))
                } else {
                    r0
                },
                self.next == old(self).next,
                self.side == old(self).side,
                self.max_remote == old(self).max_remote,
                self.allocated_remote_count == old(self).allocated_remote_count,
                self.max_concurrent_remote_count == old(self).max_concurrent_remote_count,
                self.events == old(self).events,
                self.sent_max_remote == old(self).sent_max_remote,
                self.flow_control_adjusted == old(self).flow_control_adjusted,
                self.pending.spec_recency() == old(self).pending.spec_recency(),
            decreases n - i,
        {
            let id = StreamId::new(side, dir, i);
            let ghost below = spec_ids_below(side, dir, i);
            proof {
                lemma_stream_id_decode(side, dir, i);
                lemma_ids_below_step(side, dir, i);
            }
            fx_map_remove(&mut self.send, id.0);
            match dir {
                Dir::Bi => {
                    fx_map_remove(&mut self.recv, id.0);
                },
                Dir::Uni => {},
            }
            i = i + 1;
            proof {
                assert(s0.remove_keys(below).remove(id.0) =~= s0.remove_keys(below.insert(id.0)));
                assert(r0.remove_keys(below).remove(id.0) =~= r0.remove_keys(below.insert(id.0)));
            }
        }
    }

    /// Revert to the initial state for outgoing streams after 0-RTT data was rejected: the
    /// streams this side opened are dropped, and any flow control frames sent were lost
    pub fn zero_rtt_rejected(&mut self)
        requires
            old(self).wf(),
            forall|x: u64| #[trigger]
                spec_local_opened(old(self).side, old(self).next@).contains(x) ==> old(
                    self,
                ).spec_send().contains(x) && (spec_dir(x) == Dir::Bi ==> old(self).spec_recv().contains(x)),
        ensures
            final(self).wf(),
            final(self).send@ == old(self).send@.remove_keys(
                spec_local_opened(old(self).side, old(self).next@),
            ),
            final(self).recv@ == old(self).recv@.remove_keys(
                spec_ids_below(old(self).side, Dir::Bi, old(self).next[0]),
            ),
            final(self).next@ == seq![0u64, 0u64],
            final(self).sent_max_remote == if old(self).flow_control_adjusted {
                [0u64, 0u64]
            } else {
                old(self).sent_max_remote
            },
            final(self).pending.queued() == Seq::<StreamId>::empty(),
            final(self).send_streams == 0,
            final(self).data_sent == 0,
            final(self).connection_blocked@.len() == 0,
            final(self).side == old(self).side,
            final(self).max_remote == old(self).max_remote,
            final(self).events == old(self).events,
    {
        let ghost side = self.side;
        let ghost s0 = self.send@;
        let ghost r0 = self.recv@;
        let ghost n0 = self.next@;
        proof {
            assert forall|x: u64| #[trigger]
                spec_ids_below(side, Dir::Bi, n0[0]).contains(x) implies s0.dom().contains(x)
                    && r0.dom().contains(x) by {
                assert(spec_local_opened(side, n0).contains(x));
            }
        }
        self.drop_local_streams(Dir::Bi);
        self.next[0] = 0;
        if self.flow_control_adjusted {
            self.sent_max_remote[0] = 0;
        }
        let ghost s1 = self.send@;
        proof {
            assert forall|x: u64| #[trigger]
                spec_ids_below(side, Dir::Uni, n0[1]).contains(x) implies s1.dom().contains(x) by {
                assert(spec_local_opened(side, n0).contains(x));
                assert(!spec_ids_below(side, Dir::Bi, n0[0]).contains(x));
            }
        }
        self.drop_local_streams(Dir::Uni);
        self.next[1] = 0;
        if self.flow_control_adjusted {
            self.sent_max_remote[1] = 0;
        }
        self.pending.clear();
        self.send_streams = 0;
        self.data_sent = 0;
        self.connection_blocked.clear();
        proof {
            assert(self.send@ =~= s0.remove_keys(spec_local_opened(side, n0)));
            assert(self.next@ =~= seq![0u64, 0u64]);
            assert forall|x: u64| #![trigger self.spec_send().contains(x)] #![trigger self.spec_recv().contains(x)]
                true implies ((self.spec_send().contains(x) || self.spec_recv().contains(x) ==> if spec_initiator(x) == self.side {
                    x / 4 < self.next[spec_di(spec_dir(x))]
                } else {
                    x / 4 < self.max_remote[spec_di(spec_dir(x))]
                }) && (self.spec_send().contains(x) && spec_dir(x) == Dir::Uni ==> spec_initiator(x) == self.side) && (
                self.spec_recv().contains(x) && spec_dir(x) == Dir::Uni ==> spec_initiator(x) != self.side)) by {
                if self.spec_send().contains(x) || self.spec_recv().contains(x) {
                    assert(s0.dom().contains(x) || r0.dom().contains(x));
                    if spec_initiator(x) == side {
                        if self.spec_send().contains(x) {
                            assert(!spec_local_opened(side, n0).contains(x));
                        } else {
                            assert(!spec_ids_below(side, Dir::Bi, n0[0]).contains(x));
                        }
                    }
                }
            }
        }
    }

    /// Mark the data of the client's streams of direction `dir` for retransmission, queueing
    /// those that were not pending
    fn resend_for_0rtt(&mut self, dir: Dir)
        requires
            old(self).next@.len() == 2,
            old(self).next[spec_di(dir)] <= 0x4000_0000_0000_0000,
            old(self).pending.spec_recency() >= old(self).next[spec_di(dir)],
            forall|k: u64| #[trigger]
                spec_ids_below(Side::Client, dir, old(self).next[spec_di(dir)]).contains(k)
                    && spec_resend_candidate(old(self).send@, k) ==> old(self).send@[k]->Some_0.pending.spec_offset()
                    == old(self).send@[k]->Some_0.pending.spec_unacked_len(),
        ensures
            spec_resent(
                old(self).send@,
                final(self).send@,
                spec_ids_below(Side::Client, dir, old(self).next[spec_di(dir)]),
            ),
            final(self).pending.queued() == old(self).pending.queued() + spec_requeued(
                old(self).send@,
                dir,
                old(self).next[spec_di(dir)] as nat,
            ),
            final(self).pending.spec_recency() >= old(self).pending.spec_recency() - old(self).next[spec_di(dir)],
            *final(self) == (StreamsState { send: final(self).send, pending: final(self).pending, ..*old(self) }),
    {
        let d = dir_index(dir);
        let n = self.next[d];
        let ghost s0 = self.send@;
        let ghost q0 = self.pending.queued();
        let ghost rec0 = self.pending.spec_recency();
        proof {
            assert(q0 + spec_requeued(s0, dir, 0) =~= q0);
        }
        let mut i: u64 = 0;
        while i < n
            invariant
                i <= n,
                n == old(self).next[d as int],
                n <= 0x4000_0000_0000_0000,
                d == spec_di(dir),
                s0 == old(self).send@,
                q0 == old(self).pending.queued(),
                rec0 == old(self).pending.spec_recency(),
                rec0 >= n,
                forall|k: u64| #[trigger]
                    spec_ids_below(Side::Client, dir, n).contains(k) && spec_resend_candidate(s0, k)
                        ==> s0[k]->Some_0.pending.spec_offset() == s0[k]->Some_0.pending.spec_unacked_len(),
                spec_resent(s0, self.send@, spec_ids_below(Side::Client, dir, i)),
                self.pending.queued() == q0 + spec_requeued(s0, dir, i as nat),
                self.pending.spec_recency() >= rec0 - i,
                *self == (StreamsState { send: self.send, pending: self.pending, ..*old(self) }),
            decreases n - i,
        {
            let id = StreamId::new(Side::Client, dir, i);
            let ghost below = spec_ids_below(Side::Client, dir, i);
            let ghost s1 = self.send@;
            let ghost q1 = self.pending.queued();
            proof {
                lemma_stream_id_decode(Side::Client, dir, i);
                lemma_ids_below_step(Side::Client, dir, i);
                assert(spec_ids_below(Side::Client, dir, n).contains(id.0));
                if s0.contains_key(id.0) {
                    assert(s1[id.0] == s0[id.0]);
                }
            }
            let present = match fx_map_get(&self.send, id.0) {
                Some(Some(_)) => true,
                _ => false,
            };
            if present {
                let mut st = match fx_map_remove(&mut self.send, id.0) {
                    Some(Some(x)) => x,
                    _ => {
                        proof {
                            assert(false);
                        }
                        return;
                    },
                };
                if st.pending.is_fully_acked() && !st.fin_pending {
                    fx_map_insert(&mut self.send, id.0, Some(st));
                } else {
                    if !st.is_pending() {
                        self.pending.push_pending(id, st.priority);
                    }
                    st.pending.retransmit_all_for_0rtt();
                    fx_map_insert(&mut self.send, id.0, Some(st));
                }
            }
            i = i + 1;
            proof {
                assert(self.pending.queued() =~= q0 + spec_requeued(s0, dir, i as nat));
                assert(self.send@.dom() =~= s0.dom());
                assert forall|k: u64| #[trigger] s0.contains_key(k) implies (if below.insert(id.0).contains(k)
                    && spec_resend_candidate(s0, k) {
                    self.send@[k] is Some && spec_all_unsent(s0[k]->Some_0, self.send@[k]->Some_0)
                } else {
                    self.send@[k] == s0[k]
                }) by {
                    if k != id.0 {
                        assert(s1[k] == self.send@[k]);
                    }
                }
            }
        }
        proof {
            assert(self.send@.dom() =~= s0.dom());
        }
    }

    /// Mark all data sent on the client's streams in 0-RTT for retransmission, queueing the
    /// streams that were not pending, bidirectional ones first
    pub fn retransmit_all_for_0rtt(&mut self)
        requires
            old(self).wf(),
            old(self).pending.spec_recency() >= old(self).next[0] + old(self).next[1],
            forall|k: u64| #[trigger]
                spec_local_opened(Side::Client, old(self).next@).contains(k) && spec_resend_candidate(
                    old(self).send@,
                    k,
                ) ==> old(self).send@[k]->Some_0.pending.spec_offset()
                    == old(self).send@[k]->Some_0.pending.spec_unacked_len(),
        ensures
            final(self).wf(),
            spec_resent(old(self).send@, final(self).send@, spec_local_opened(Side::Client, old(self).next@)),
            final(self).pending.queued() == old(self).pending.queued() + spec_requeued(
                old(self).send@,
                Dir::Bi,
                old(self).next[0] as nat,
            ) + spec_requeued(old(self).send@, Dir::Uni, old(self).next[1] as nat),
            *final(self) == (StreamsState { send: final(self).send, pending: final(self).pending, ..*old(self) }),
    {
        let ghost s0 = self.send@;
        let ghost n0 = self.next@;
        proof {
            assert forall|k: u64| #[trigger]
                spec_ids_below(Side::Client, Dir::Bi, n0[0]).contains(k) && spec_resend_candidate(s0, k)
                    implies s0[k]->Some_0.pending.spec_offset() == s0[k]->Some_0.pending.spec_unacked_len() by {
                assert(spec_local_opened(Side::Client, n0).contains(k));
            }
        }
        self.resend_for_0rtt(Dir::Bi);
        let ghost s1 = self.send@;
        proof {
            assert forall|k: u64| #[trigger]
                spec_ids_below(Side::Client, Dir::Uni, n0[1]).contains(k) && spec_resend_candidate(s1, k)
                    implies s1[k]->Some_0.pending.spec_offset() == s1[k]->Some_0.pending.spec_unacked_len() by {
                assert(spec_local_opened(Side::Client, n0).contains(k));
                assert(!spec_ids_below(Side::Client, Dir::Bi, n0[0]).contains(k));
                assert(s0.contains_key(k));
            }
        }
        self.resend_for_0rtt(Dir::Uni);
        proof {
            assert(spec_requeued(s1, Dir::Uni, n0[1] as nat) == spec_requeued(s0, Dir::Uni, n0[1] as nat)) by {
                lemma_requeued_unchanged(s0, s1, n0[0], n0[1] as nat);
            }
            assert forall|k: u64| #[trigger] s0.contains_key(k) implies (if spec_local_opened(Side::Client, n0).contains(k)
                && spec_resend_candidate(s0, k) {
                self.send@[k] is Some && spec_all_unsent(s0[k]->Some_0, self.send@[k]->Some_0)
            } else {
                self.send@[k] == s0[k]
            }) by {
                assert(s1.contains_key(k));
            }
        }
    }

    /// Process an incoming STREAM frame counted as a packet of `payload_len` bytes; returns
    /// whether a MAX_DATA frame needs to be sent
    ///
    /// The frame of a stream the application stopped must be one that is refused, and the
    /// data of another must be taken in as [`Recv::ingest`] requires.
    pub fn received(&mut self, frame: Stream, payload_len: usize) -> (r: Result<
        ShouldTransmit,
        TransportError,
    >)
        requires
            old(self).wf(),
            old(self).next_remote@.len() == 2,
            old(self).opened@.len() == 2,
            frame.offset + frame.data@.len() <= u64::MAX,
            ({
                let x = frame.id.0;
                let rs = old(self).spec_recv_or_new(x);
                let end = (frame.offset + frame.data@.len()) as u64;
                old(self).spec_receive_id_error(x) is None && old(self).recv@.contains_key(x)
                    && rs.state is Recv ==> {
                    &&& old(self).data_recvd + spec_new_bytes(end, rs.end) <= u64::MAX
                    &&& rs.stopped ==> spec_ingest_error(
                        rs,
                        end,
                        frame.fin,
                        old(self).data_recvd,
                        old(self).local_max_data,
                    ) is Some
                    &&& !rs.stopped ==> {
                        &&& frame.data@.len() <= payload_len
                        &&& rs.assembler.spec_ordered()
                        &&& frame.data@.len() == 0 || end <= rs.assembler.spec_bytes_read()
                    }
                }
            }),
        ensures
            final(self).wf(),
            ({
                let x = frame.id.0;
                let rs = old(self).spec_recv_or_new(x);
                let end = (frame.offset + frame.data@.len()) as u64;
                let err = spec_ingest_error(rs, end, frame.fin, old(self).data_recvd, old(self).local_max_data);
                if old(self).spec_receive_id_error(x) is Some {
                    r is Err && r->Err_0.code == old(self).spec_receive_id_error(x)->Some_0
                        && *final(self) == *old(self)
                } else if !old(self).recv@.contains_key(x) {
                    r == Ok::<ShouldTransmit, TransportError>(ShouldTransmit(false)) && *final(self) == *old(self)
                } else if !(rs.state is Recv) {
                    &&& r == Ok::<ShouldTransmit, TransportError>(ShouldTransmit(false))
                    &&& *final(self) == (StreamsState { recv: final(self).recv, ..*old(self) })
                    &&& final(self).recv@ == old(self).recv@.insert(x, Some(rs))
                } else if err is Some {
                    &&& r is Err && r->Err_0.code == err->Some_0
                    &&& *final(self) == (StreamsState { recv: final(self).recv, ..*old(self) })
                    &&& final(self).recv@ == old(self).recv@.insert(x, Some(rs))
                } else {
                    &&& r == Ok::<ShouldTransmit, TransportError>(ShouldTransmit(false))
                    &&& final(self).recv@.contains_key(x) && final(self).recv@[x] is Some
                    &&& spec_ingested(rs, final(self).recv@[x]->Some_0, end, frame.fin)
                    &&& final(self).recv@ == old(self).recv@.insert(x, final(self).recv@[x])
                    &&& final(self).data_recvd == if old(self).data_recvd + spec_new_bytes(end, rs.end) > u64::MAX {
                        u64::MAX as int
                    } else {
                        old(self).data_recvd + spec_new_bytes(end, rs.end)
                    }
                    &&& (final(self).next_remote@, final(self).opened@, final(self).events@)
                        == spec_stream_frame_effect(
                        old(self).side,
                        old(self).next_remote@,
                        old(self).opened@,
                        old(self).events@,
                        true,
                        frame.id,
                    )
                    &&& *final(self) == (StreamsState {
                        recv: final(self).recv,
                        data_recvd: final(self).data_recvd,
                        next_remote: final(self).next_remote,
                        opened: final(self).opened,
                        events: final(self).events,
                        ..*old(self)
                    })
                }
            }),
    {
        let id = frame.id;
        match self.validate_receive_id(id) {
            Err(e) => {
                return Err(e);
            },
            Ok(()) => {},
        }
        if !fx_map_contains(&self.recv, id.0) {
            return Ok(ShouldTransmit(false));
        }
        let window = self.stream_receive_window;
        let ghost r0 = self.recv@;
        let mut rs = match fx_map_remove(&mut self.recv, id.0) {
            Some(Some(r)) => r,
            _ => Recv::new(window),
        };
        proof {
            Assembler::lemma_new();
        }
        if !rs.is_receiving() {
            fx_map_insert(&mut self.recv, id.0, Some(rs));
            proof {
                assert(self.recv@.dom() =~= r0.dom());
            }
            return Ok(ShouldTransmit(false));
        }
        let received = self.data_recvd;
        let max_data = self.local_max_data;
        match rs.ingest(frame, payload_len, received, max_data) {
            Err(e) => {
                fx_map_insert(&mut self.recv, id.0, Some(rs));
                proof {
                    assert(self.recv@.dom() =~= r0.dom());
                }
                Err(e)
            },
            Ok((new_bytes, _closed)) => {
                fx_map_insert(&mut self.recv, id.0, Some(rs));
                proof {
                    assert(self.recv@.dom() =~= r0.dom());
                }
                self.data_recvd = self.data_recvd.saturating_add(new_bytes);
                self.on_stream_frame(true, id);
                Ok(ShouldTransmit(false))
            },
        }
    }

    /// What comes before writing on stream `id` while the connection is closed or not
    /// (`conn_closed`): a closed connection blocks the write; a stream without a sending half
    /// refuses it; its state is created on first use; when connection-level flow control and
    /// the send window leave nothing, the write is blocked and the stream joins the list of
    /// streams blocked on the connection; otherwise up to the returned number of bytes may be
    /// written
    pub fn write_budget(&mut self, id: StreamId, conn_closed: bool) -> (r: Result<u64, WriteError>)
        requires
            old(self).wf(),
            old(self).data_sent <= old(self).max_data,
            old(self).unacked_data <= old(self).send_window,
        ensures
            final(self).wf(),
            conn_closed ==> r == Err::<u64, WriteError>(WriteError::Blocked) && *final(self)
                == *old(self),
            !conn_closed && !old(self).send@.contains_key(id.0) ==> r == Err::<u64, WriteError>(
                WriteError::ClosedStream,
            ) && *final(self) == *old(self),
            !conn_closed && old(self).send@.contains_key(id.0) ==> {
                let limit = if old(self).max_data - old(self).data_sent < old(self).send_window
                    - old(self).unacked_data {
                    old(self).max_data - old(self).data_sent
                } else {
                    old(self).send_window - old(self).unacked_data
                };
                let was_blocked = match old(self).send@[id.0] {
                    Some(s) => s.connection_blocked,
                    None => false,
                };
                &&& final(self).send@.dom() == old(self).send@.dom()
                &&& forall|k: u64| k != id.0 && #[trigger] old(self).send@.contains_key(k)
                    ==> final(self).send@[k] == old(self).send@[k]
                &&& final(self).send@[id.0] matches Some(s2) && (match old(self).send@[id.0] {
                    Some(s) => spec_same_but_blocked(s2, s),
                    None => spec_same_but_blocked(s2, s2) && {
                        let f = Send { connection_blocked: false, ..s2 };
                        spec_fresh_send(f, old(self).spec_max_send_data(id.0)@)
                    },
                }) && s2.connection_blocked == (was_blocked || limit == 0)
                &&& final(self).connection_blocked@ == if limit == 0 && !was_blocked {
                    old(self).connection_blocked@.push(id)
                } else {
                    old(self).connection_blocked@
                }
                &&& r == if limit == 0 {
                    Err::<u64, WriteError>(WriteError::Blocked)
                } else {
                    Ok::<u64, WriteError>(limit as u64)
                }
                &&& *final(self) == (StreamsState {
                    send: final(self).send,
                    connection_blocked: final(self).connection_blocked,
                    ..*old(self)
                })
            },
    {
        if conn_closed {
            return Err(WriteError::Blocked);
        }
        let limit = self.write_limit();
        let max_send_data = self.max_send_data(id);
        if !fx_map_contains(&self.send, id.0) {
            return Err(WriteError::ClosedStream);
        }
        let ghost pre = *self;
        let mut stream = match fx_map_remove(&mut self.send, id.0) {
            Some(Some(s)) => s,
            _ => Send::new(max_send_data),
        };
        let blocked = limit == 0;
        if blocked && !stream.connection_blocked {
            stream.connection_blocked = true;
            self.connection_blocked.push(id);
        }
        fx_map_insert(&mut self.send, id.0, Some(stream));
        proof {
            assert(self.send@.dom() =~= pre.send@.dom());
            assert(self.spec_send() =~= pre.spec_send());
        }
        if blocked {
            Err(WriteError::Blocked)
        } else {
            Ok(limit)
        }
    }

    /// Yield the next stream event: that the peer opened streams of a direction (bidirectional
    /// first), else the oldest queued event; when the connection may be written to, the streams
    /// blocked on it are dropped from the blocked list first, none of them having state left
    pub fn poll(&mut self) -> (r: Option<StreamEvent>)
        requires
            old(self).opened@.len() == 2,
            old(self).data_sent <= old(self).max_data,
            old(self).unacked_data <= old(self).send_window,
            !old(self).opened[0] && !old(self).opened[1] && old(self).data_sent < old(self).max_data
                && old(self).unacked_data < old(self).send_window ==> forall|i: int|
                0 <= i < old(self).connection_blocked@.len() ==> !(#[trigger] old(self).send@.contains_key(
                    old(self).connection_blocked@[i].0,
                ) && old(self).send@[old(self).connection_blocked@[i].0] is Some),
        ensures
            old(self).opened[0] ==> r == Some(StreamEvent::Opened { dir: Dir::Bi }) && final(self).opened@
                == old(self).opened@.update(0, false) && final(self).events@ == old(self).events@
                && final(self).connection_blocked@ == old(self).connection_blocked@,
            !old(self).opened[0] && old(self).opened[1] ==> r == Some(
                StreamEvent::Opened { dir: Dir::Uni },
            ) && final(self).opened@ == old(self).opened@.update(1, false) && final(self).events@
                == old(self).events@ && final(self).connection_blocked@ == old(self).connection_blocked@,
            !old(self).opened[0] && !old(self).opened[1] ==> {
                &&& final(self).opened == old(self).opened
                &&& final(self).connection_blocked@ == if old(self).data_sent < old(self).max_data
                    && old(self).unacked_data < old(self).send_window {
                    Seq::<StreamId>::empty()
                } else {
                    old(self).connection_blocked@
                }
                &&& if old(self).events@.len() > 0 {
                    r == Some(old(self).events@[0]) && final(self).events@ == old(self).events@.drop_first()
                } else {
                    r is None && final(self).events@ == old(self).events@
                }
            },
            final(self).send@ == old(self).send@,
            final(self).recv@ == old(self).recv@,
    {
        if self.opened[0] {
            self.opened[0] = false;
            return Some(StreamEvent::Opened { dir: Dir::Bi });
        }
        if self.opened[1] {
            self.opened[1] = false;
            return Some(StreamEvent::Opened { dir: Dir::Uni });
        }
        if self.write_limit() > 0 {
            while self.connection_blocked.len() > 0
                invariant
                    self.connection_blocked@.len() <= old(self).connection_blocked@.len(),
                    self.connection_blocked@ == old(self).connection_blocked@.subrange(
                        0,
                        self.connection_blocked@.len() as int,
                    ),
                    self.events == old(self).events,
                    self.opened == old(self).opened,
                    self.send == old(self).send,
                    self.recv == old(self).recv,
                decreases self.connection_blocked@.len(),
            {
                // none of the blocked streams has state left
                let _id = self.connection_blocked.pop();
            }
            assert(self.connection_blocked@ =~= Seq::<StreamId>::empty());
        }
        let r = self.events.pop_front();
        proof {
            if old(self).events@.len() > 0 {
                assert(self.events@ =~= old(self).events@.drop_first());
            }
        }
        r
    }
}

} // verus!
