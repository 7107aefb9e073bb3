//! Decoding transport parameters gives back the parameters that were encoded.
use vstd::prelude::*;

use crate::coding::{be16, from_be16, lemma_be16_roundtrip};
use crate::shared::MAX_CID_SIZE;
use crate::transport_parameters::{
    spec_default_params, spec_initial_read_state, spec_int_code, spec_int_default,
    spec_int_index, spec_pa_read, spec_pa_write, spec_params_illegal, spec_read, spec_read_one,
    spec_read_params, spec_read_step, spec_write, spec_write_cid_param, spec_write_flag_param,
    spec_write_int_param, spec_write_ints, spec_write_pa_param, spec_write_token_param,
    spec_write_var_param, spec_zeros, ParamStep, PreferredAddressView, ReadOutcome, ReadState,
    StepOutcome, TransportParametersView, INT_PARAM_COUNT,
};
use crate::varint::{
    lemma_varint_roundtrip, spec_varint_decode, spec_varint_encode, spec_varint_size,
    VARINT_BOUND,
};
use crate::Side;

verus! {

/// A preferred address that its encoding represents faithfully: a connection ID of at most
/// `MAX_CID_SIZE` bytes, a 16-byte token, and at least one address, none of them the unspecified
/// address with port zero (which the encoding uses for an absent address)
pub open spec fn spec_pa_encodable(pa: PreferredAddressView) -> bool {
    &&& pa.cid.len() <= MAX_CID_SIZE
    &&& pa.token.len() == 16
    &&& (pa.v4 matches Some((ip, port)) ==> ip.len() == 4 && !(ip == spec_zeros(4) && port == 0))
    &&& (pa.v6 matches Some((ip, port)) ==> ip.len() == 16 && !(ip == spec_zeros(16) && port
        == 0))
    &&& !(pa.v4 is None && pa.v6 is None)
}

/// Parameters whose encoding represents them faithfully: every integer fits a varint, every
/// connection ID fits `MAX_CID_SIZE`, a reset token has 16 bytes and a preferred address is
/// encodable
pub open spec fn spec_params_encodable(p: TransportParametersView) -> bool {
    &&& p.ints.len() == INT_PARAM_COUNT
    &&& forall|k: int| 0 <= k < INT_PARAM_COUNT ==> #[trigger] p.ints[k] < VARINT_BOUND
    &&& (p.max_datagram_frame_size matches Some(x) ==> x < VARINT_BOUND)
    &&& (p.min_ack_delay matches Some(x) ==> x < VARINT_BOUND)
    &&& (p.initial_src_cid matches Some(c) ==> c.len() <= MAX_CID_SIZE)
    &&& (p.original_dst_cid matches Some(c) ==> c.len() <= MAX_CID_SIZE)
    &&& (p.retry_src_cid matches Some(c) ==> c.len() <= MAX_CID_SIZE)
    &&& (p.stateless_reset_token matches Some(t) ==> t.len() == 16)
    &&& (p.preferred_address matches Some(pa) ==> spec_pa_encodable(pa))
}

/// Reading a parameter that occupies all of `piece` continues with the rest
proof fn lemma_read_prefix(piece: Seq<u8>, rest: Seq<u8>, st: ReadState, st2: ReadState)
    requires
        piece.len() > 0,
        spec_read_one(piece + rest, st) == ParamStep::Continue(piece.len(), st2),
    ensures
        spec_read_params(piece + rest, st) == spec_read_params(rest, st2),
{
    let s = piece + rest;
    assert(s.subrange(piece.len() as int, s.len() as int) =~= rest);
}

/// Reading an identifier and a length, as varints, followed by at least that many bytes
proof fn lemma_read_one_param(id: u64, len: u64, x: Seq<u8>, st: ReadState)
    requires
        id < VARINT_BOUND,
        len < VARINT_BOUND,
        x.len() >= len,
    ensures
        spec_read_one(spec_varint_encode(id) + spec_varint_encode(len) + x, st) == match spec_read_step(
            id,
            len,
            x,
            st,
        ) {
            StepOutcome::Next(st2, c) => if c <= x.len() {
                ParamStep::Continue(spec_varint_size(id) + spec_varint_size(len) + c, st2)
            } else {
                ParamStep::End(ReadOutcome::Panics)
            },
            StepOutcome::Stop(e) => ParamStep::End(ReadOutcome::Failed(e)),
            StepOutcome::Panics => ParamStep::End(ReadOutcome::Panics),
        },
{
    reveal(spec_read_one);
    let tail = spec_varint_encode(len) + x;
    let s = spec_varint_encode(id) + spec_varint_encode(len) + x;
    assert(s =~= spec_varint_encode(id) + tail);
    lemma_varint_roundtrip(id, tail);
    let s1 = s.subrange(spec_varint_size(id) as int, s.len() as int);
    assert(s1 =~= tail);
    lemma_varint_roundtrip(len, x);
    let s2 = s1.subrange(spec_varint_size(len) as int, s1.len() as int);
    assert(s2 =~= x);
}

/// The state after reading the first `k` integer parameters of `ints` from their encoding:
/// each one that differs from its default is set, and marked as seen
pub open spec fn spec_apply_ints(ints: Seq<u64>, k: nat, st: ReadState) -> ReadState
    decreases k,
{
    if k == 0 {
        st
    } else {
        let st1 = spec_apply_ints(ints, (k - 1) as nat, st);
        if ints[k - 1] != spec_int_default(k - 1) {
            ReadState {
                p: TransportParametersView { ints: st1.p.ints.update(k - 1, ints[k - 1]), ..st1.p },
                got: st1.got.update(k - 1, true),
            }
        } else {
            st1
        }
    }
}

/// What reading the first `k` integer parameters changes, and what it keeps
proof fn lemma_apply_ints(ints: Seq<u64>, k: nat, st: ReadState)
    requires
        k <= INT_PARAM_COUNT,
        st.p.ints.len() == INT_PARAM_COUNT,
        st.got.len() == INT_PARAM_COUNT,
    ensures
        spec_apply_ints(ints, k, st).p == (TransportParametersView {
            ints: spec_apply_ints(ints, k, st).p.ints,
            ..st.p
        }),
        spec_apply_ints(ints, k, st).p.ints.len() == INT_PARAM_COUNT,
        spec_apply_ints(ints, k, st).got.len() == INT_PARAM_COUNT,
        forall|j: int|
            0 <= j < k ==> #[trigger] spec_apply_ints(ints, k, st).p.ints[j] == if ints[j]
                != spec_int_default(j) {
                ints[j]
            } else {
                st.p.ints[j]
            },
        forall|j: int|
            k <= j < INT_PARAM_COUNT ==> #[trigger] spec_apply_ints(ints, k, st).p.ints[j]
                == st.p.ints[j] && spec_apply_ints(ints, k, st).got[j] == st.got[j],
    decreases k,
{
    if k > 0 {
        lemma_apply_ints(ints, (k - 1) as nat, st);
        let st1 = spec_apply_ints(ints, (k - 1) as nat, st);
        assert forall|j: int| k <= j < INT_PARAM_COUNT implies #[trigger] spec_apply_ints(
            ints,
            k,
            st,
        ).p.ints[j] == st.p.ints[j] && spec_apply_ints(ints, k, st).got[j] == st.got[j] by {
            assert(st1.p.ints[j] == st.p.ints[j]);
        }
    }
}

/// Reading one integer parameter that differs from its default sets it and marks it as seen
proof fn lemma_read_int(k: int, v: u64, rest: Seq<u8>, st: ReadState)
    requires
        0 <= k < INT_PARAM_COUNT,
        v < VARINT_BOUND,
        v != spec_int_default(k),
        st.got.len() == INT_PARAM_COUNT,
        !st.got[k],
    ensures
        spec_read_params(spec_write_int_param(k, v) + rest, st) == spec_read_params(
            rest,
            ReadState {
                p: TransportParametersView { ints: st.p.ints.update(k, v), ..st.p },
                got: st.got.update(k, true),
            },
        ),
{
    let id = spec_int_code(k);
    let len = spec_varint_size(v) as u64;
    let x = spec_varint_encode(v) + rest;
    lemma_varint_roundtrip(v, rest);
    lemma_varint_roundtrip(len, Seq::<u8>::empty());
    lemma_varint_roundtrip(id, Seq::<u8>::empty());
    lemma_read_one_param(id, len, x, st);
    reveal(spec_read_step);
    assert(spec_int_index(id) == Some(k));
    let piece = spec_write_int_param(k, v);
    assert(piece + rest =~= spec_varint_encode(id) + spec_varint_encode(len) + x);
    lemma_read_prefix(
        piece,
        rest,
        st,
        ReadState {
            p: TransportParametersView { ints: st.p.ints.update(k, v), ..st.p },
            got: st.got.update(k, true),
        },
    );
}

/// Reading the encoding of the first `k` integer parameters
proof fn lemma_read_ints(ints: Seq<u64>, k: nat, rest: Seq<u8>, st: ReadState)
    requires
        k <= INT_PARAM_COUNT,
        ints.len() == INT_PARAM_COUNT,
        forall|j: int| 0 <= j < INT_PARAM_COUNT ==> #[trigger] ints[j] < VARINT_BOUND,
        st.p.ints.len() == INT_PARAM_COUNT,
        st.got.len() == INT_PARAM_COUNT,
        forall|j: int| 0 <= j < INT_PARAM_COUNT ==> !#[trigger] st.got[j],
    ensures
        spec_read_params(spec_write_ints(ints, k) + rest, st) == spec_read_params(
            rest,
            spec_apply_ints(ints, k, st),
        ),
    decreases k,
{
    if k == 0 {
        assert(spec_write_ints(ints, 0) + rest =~= rest);
    } else {
        let j = k - 1;
        let piece = spec_write_int_param(j, ints[j]);
        assert(spec_write_ints(ints, k) + rest =~= spec_write_ints(ints, j as nat) + (piece + rest));
        lemma_read_ints(ints, j as nat, piece + rest, st);
        let st1 = spec_apply_ints(ints, j as nat, st);
        lemma_apply_ints(ints, j as nat, st);
        assert(st1.p.ints[j] == st.p.ints[j]);
        assert(!st.got[j]);
        if ints[j] != spec_int_default(j) {
            lemma_read_int(j, ints[j], rest, st1);
        } else {
            assert(piece + rest =~= rest);
        }
    }
}

/// Reading a parameter that is skipped: identifier 182 with no value
proof fn lemma_read_reserved(rest: Seq<u8>, st: ReadState)
    ensures
        spec_read_params(spec_varint_encode(182) + spec_varint_encode(0) + rest, st)
            == spec_read_params(rest, st),
{
    lemma_varint_roundtrip(182, Seq::<u8>::empty());
    lemma_varint_roundtrip(0, Seq::<u8>::empty());
    lemma_read_one_param(182, 0, rest, st);
    reveal(spec_read_step);
    let piece = spec_varint_encode(182) + spec_varint_encode(0);
    assert(spec_varint_encode(182) + spec_varint_encode(0) + rest =~= piece + rest);
    lemma_read_prefix(piece, rest, st, st);
}

/// Reading an optional stateless reset token parameter
proof fn lemma_read_token(t: Option<Seq<u8>>, rest: Seq<u8>, st: ReadState)
    requires
        st.p.stateless_reset_token is None,
        t matches Some(x) ==> x.len() == 16,
    ensures
        spec_read_params(spec_write_token_param(t) + rest, st) == spec_read_params(
            rest,
            ReadState { p: TransportParametersView { stateless_reset_token: t, ..st.p }, ..st },
        ),
{
    match t {
        Some(x) => {
            let y = x + rest;
            lemma_varint_roundtrip(2, Seq::<u8>::empty());
            lemma_varint_roundtrip(16, Seq::<u8>::empty());
            lemma_read_one_param(2, 16, y, st);
            reveal(spec_read_step);
            assert(y.take(16) =~= x);
            let piece = spec_write_token_param(t);
            assert(piece + rest =~= spec_varint_encode(2) + spec_varint_encode(16) + y);
            lemma_read_prefix(
                piece,
                rest,
                st,
                ReadState { p: TransportParametersView { stateless_reset_token: t, ..st.p }, ..st },
            );
        },
        None => {
            assert(spec_write_token_param(t) + rest =~= rest);
            assert(st.p == TransportParametersView { stateless_reset_token: t, ..st.p });
        },
    }
}

/// Reading an optional flag parameter `tag`, which has no value: the flag is set if present
proof fn lemma_read_flag(tag: u64, f: bool, rest: Seq<u8>, st: ReadState)
    requires
        tag == 0x0c ==> !st.p.disable_active_migration,
        tag == 0x2ab2 ==> !st.p.grease_quic_bit,
        tag == 0x0c || tag == 0x2ab2,
    ensures
        spec_read_params(spec_write_flag_param(tag, f) + rest, st) == spec_read_params(
            rest,
            ReadState {
                p: if tag == 0x0c {
                    TransportParametersView { disable_active_migration: f, ..st.p }
                } else {
                    TransportParametersView { grease_quic_bit: f, ..st.p }
                },
                ..st
            },
        ),
{
    let st2 = ReadState {
        p: if tag == 0x0c {
            TransportParametersView { disable_active_migration: f, ..st.p }
        } else {
            TransportParametersView { grease_quic_bit: f, ..st.p }
        },
        ..st
    };
    if f {
        lemma_varint_roundtrip(tag, Seq::<u8>::empty());
        lemma_varint_roundtrip(0, Seq::<u8>::empty());
        lemma_read_one_param(tag, 0, rest, st);
        reveal(spec_read_step);
        let piece = spec_write_flag_param(tag, f);
        assert(piece + rest =~= spec_varint_encode(tag) + spec_varint_encode(0) + rest);
        lemma_read_prefix(piece, rest, st, st2);
    } else {
        assert(spec_write_flag_param(tag, f) + rest =~= rest);
        assert(st == st2);
    }
}

/// Reading an optional varint parameter `tag`: its value is set if present
proof fn lemma_read_var(tag: u64, v: Option<u64>, rest: Seq<u8>, st: ReadState)
    requires
        tag == 0x20 ==> st.p.max_datagram_frame_size is None,
        tag == 0xff04de1a ==> st.p.min_ack_delay is None,
        tag == 0x20 || tag == 0xff04de1a,
        v matches Some(x) ==> x < VARINT_BOUND,
    ensures
        spec_read_params(spec_write_var_param(tag, v) + rest, st) == spec_read_params(
            rest,
            ReadState {
                p: if tag == 0x20 {
                    TransportParametersView { max_datagram_frame_size: v, ..st.p }
                } else {
                    TransportParametersView { min_ack_delay: v, ..st.p }
                },
                ..st
            },
        ),
{
    let st2 = ReadState {
        p: if tag == 0x20 {
            TransportParametersView { max_datagram_frame_size: v, ..st.p }
        } else {
            TransportParametersView { min_ack_delay: v, ..st.p }
        },
        ..st
    };
    match v {
        Some(x) => {
            let len = spec_varint_size(x) as u64;
            let y = spec_varint_encode(x) + rest;
            lemma_varint_roundtrip(x, rest);
            lemma_varint_roundtrip(tag, Seq::<u8>::empty());
            lemma_varint_roundtrip(len, Seq::<u8>::empty());
            lemma_read_one_param(tag, len, y, st);
            reveal(spec_read_step);
            let piece = spec_write_var_param(tag, v);
            assert(piece + rest =~= spec_varint_encode(tag) + spec_varint_encode(len) + y);
            lemma_read_prefix(piece, rest, st, st2);
        },
        None => {
            assert(spec_write_var_param(tag, v) + rest =~= rest);
            assert(st == st2);
        },
    }
}

/// Parameters with the connection ID parameter `tag` set to `c`
pub open spec fn spec_set_cid(tag: u64, c: Option<Seq<u8>>, p: TransportParametersView) -> TransportParametersView {
    if tag == 0x00 {
        TransportParametersView { original_dst_cid: c, ..p }
    } else if tag == 0x0f {
        TransportParametersView { initial_src_cid: c, ..p }
    } else {
        TransportParametersView { retry_src_cid: c, ..p }
    }
}

/// Reading an optional connection ID parameter `tag`: its value is set if present
proof fn lemma_read_cid(tag: u64, c: Option<Seq<u8>>, rest: Seq<u8>, st: ReadState)
    requires
        tag == 0x00 ==> st.p.original_dst_cid is None,
        tag == 0x0f ==> st.p.initial_src_cid is None,
        tag == 0x10 ==> st.p.retry_src_cid is None,
        tag == 0x00 || tag == 0x0f || tag == 0x10,
        c matches Some(x) ==> x.len() <= MAX_CID_SIZE,
    ensures
        spec_read_params(spec_write_cid_param(tag, c) + rest, st) == spec_read_params(
            rest,
            ReadState { p: spec_set_cid(tag, c, st.p), ..st },
        ),
{
    let st2 = ReadState { p: spec_set_cid(tag, c, st.p), ..st };
    match c {
        Some(x) => {
            let len = x.len() as u64;
            let y = x + rest;
            lemma_varint_roundtrip(tag, Seq::<u8>::empty());
            lemma_varint_roundtrip(len, Seq::<u8>::empty());
            lemma_read_one_param(tag, len, y, st);
            reveal(spec_read_step);
            assert(y.take(len as int) =~= x);
            let piece = spec_write_cid_param(tag, c);
            assert(piece + rest =~= spec_varint_encode(tag) + spec_varint_encode(len) + y);
            lemma_read_prefix(piece, rest, st, st2);
        },
        None => {
            assert(spec_write_cid_param(tag, c) + rest =~= rest);
            assert(st == st2);
        },
    }
}

/// Decoding the encoding of a preferred address gives it back, with its length
pub proof fn lemma_pa_roundtrip(pa: PreferredAddressView)
    requires
        spec_pa_encodable(pa),
    ensures
        spec_pa_write(pa).len() == 41 + pa.cid.len(),
        spec_pa_read(spec_pa_write(pa)) == Ok::<(PreferredAddressView, nat), crate::transport_parameters::Error>(
            (pa, (41 + pa.cid.len()) as nat),
        ),
{
    let s = spec_pa_write(pa);
    let (ip4, port4) = match pa.v4 {
        Some(a) => a,
        None => (spec_zeros(4), 0u16),
    };
    let (ip6, port6) = match pa.v6 {
        Some(a) => a,
        None => (spec_zeros(16), 0u16),
    };
    let n = pa.cid.len() as int;
    assert(s.len() == 41 + n);
    assert(s.subrange(0, 4) =~= ip4);
    assert(s.subrange(4, 6) =~= be16(port4));
    assert(s.subrange(6, 22) =~= ip6);
    assert(s.subrange(22, 24) =~= be16(port6));
    assert(s[24] == pa.cid.len() as u8);
    assert(s.subrange(25, 25 + n) =~= pa.cid);
    assert(s.subrange(25 + n, 25 + n + 16) =~= pa.token);
    lemma_be16_roundtrip(port4);
    lemma_be16_roundtrip(port6);
    let r = spec_pa_read(s);
    assert(r is Ok);
    assert(r->Ok_0.0 =~= pa);
}

/// Reading an optional preferred address parameter: its value is set if present
proof fn lemma_read_pa(pa: Option<PreferredAddressView>, rest: Seq<u8>, st: ReadState)
    requires
        st.p.preferred_address is None,
        pa matches Some(x) ==> spec_pa_encodable(x),
    ensures
        spec_read_params(spec_write_pa_param(pa) + rest, st) == spec_read_params(
            rest,
            ReadState { p: TransportParametersView { preferred_address: pa, ..st.p }, ..st },
        ),
{
    let st2 = ReadState { p: TransportParametersView { preferred_address: pa, ..st.p }, ..st };
    match pa {
        Some(x) => {
            lemma_pa_roundtrip(x);
            let len = (41 + x.cid.len()) as u64;
            let w = spec_pa_write(x);
            let y = w + rest;
            lemma_varint_roundtrip(0x0d, Seq::<u8>::empty());
            lemma_varint_roundtrip(len, Seq::<u8>::empty());
            lemma_read_one_param(0x0d, len, y, st);
            assert(spec_read_step(0x0d, len, y, st) == StepOutcome::Next(st2, len as nat)) by {
                reveal(spec_read_step);
                assert(y.take(len as int) =~= w);
            }
            let piece = spec_write_pa_param(pa);
            assert(piece + rest =~= spec_varint_encode(0x0d) + spec_varint_encode(len) + y);
            lemma_read_prefix(piece, rest, st, st2);
        },
        None => {
            assert(spec_write_pa_param(pa) + rest =~= rest);
            assert(st == st2);
        },
    }
}

/// The encoding of the connection ID, flag and varint parameters that end the encoding
pub open spec fn spec_write_tail_b(p: TransportParametersView) -> Seq<u8> {
    spec_write_cid_param(0x00, p.original_dst_cid) + (spec_write_cid_param(0x0f, p.initial_src_cid)
        + (spec_write_cid_param(0x10, p.retry_src_cid) + (spec_write_flag_param(
        0x2ab2,
        p.grease_quic_bit,
    ) + spec_write_var_param(0xff04de1a, p.min_ack_delay))))
}

/// The encoding of everything after the integer parameters
pub open spec fn spec_write_tail(p: TransportParametersView) -> Seq<u8> {
    (spec_varint_encode(182) + spec_varint_encode(0)) + (spec_write_token_param(
        p.stateless_reset_token,
    ) + (spec_write_flag_param(0x0c, p.disable_active_migration) + (spec_write_var_param(
        0x20,
        p.max_datagram_frame_size,
    ) + (spec_write_pa_param(p.preferred_address) + spec_write_tail_b(p)))))
}

/// Concatenation of eleven pieces, regrouped from the left to the right
proof fn lemma_regroup(
    a0: Seq<u8>,
    a1: Seq<u8>,
    a2: Seq<u8>,
    a3: Seq<u8>,
    a4: Seq<u8>,
    a5: Seq<u8>,
    a6: Seq<u8>,
    a7: Seq<u8>,
    a8: Seq<u8>,
    a9: Seq<u8>,
    a10: Seq<u8>,
)
    ensures
        a0 + a1 + a2 + a3 + a4 + a5 + a6 + a7 + a8 + a9 + a10 == a0 + (a1 + (a2 + (a3 + (a4 + (a5
            + (a6 + (a7 + (a8 + (a9 + a10))))))))),
{
    assert(a0 + a1 + a2 + a3 + a4 + a5 + a6 + a7 + a8 + a9 + a10 =~= a0 + (a1 + (a2 + (a3 + (a4 + (
    a5 + (a6 + (a7 + (a8 + (a9 + a10))))))))));
}

/// The encoding is the integer parameters followed by the others
proof fn lemma_write_split(p: TransportParametersView)
    ensures
        spec_write(p) == spec_write_ints(p.ints, INT_PARAM_COUNT as nat) + spec_write_tail(p),
{
    lemma_regroup(
        spec_write_ints(p.ints, INT_PARAM_COUNT as nat),
        spec_varint_encode(182) + spec_varint_encode(0),
        spec_write_token_param(p.stateless_reset_token),
        spec_write_flag_param(0x0c, p.disable_active_migration),
        spec_write_var_param(0x20, p.max_datagram_frame_size),
        spec_write_pa_param(p.preferred_address),
        spec_write_cid_param(0x00, p.original_dst_cid),
        spec_write_cid_param(0x0f, p.initial_src_cid),
        spec_write_cid_param(0x10, p.retry_src_cid),
        spec_write_flag_param(0x2ab2, p.grease_quic_bit),
        spec_write_var_param(0xff04de1a, p.min_ack_delay),
    );
}

/// Reading the last five parameters sets them
#[verifier::rlimit(30)]
proof fn lemma_read_tail_b(p: TransportParametersView, st: ReadState)
    requires
        spec_params_encodable(p),
        st.p.original_dst_cid is None,
        st.p.initial_src_cid is None,
        st.p.retry_src_cid is None,
        !st.p.grease_quic_bit,
        st.p.min_ack_delay is None,
    ensures
        spec_read_params(spec_write_tail_b(p), st) == ReadOutcome::Done(
            TransportParametersView {
                original_dst_cid: p.original_dst_cid,
                initial_src_cid: p.initial_src_cid,
                retry_src_cid: p.retry_src_cid,
                grease_quic_bit: p.grease_quic_bit,
                min_ack_delay: p.min_ack_delay,
                ..st.p
            },
        ),
{
    let e = Seq::<u8>::empty();
    let v2 = spec_write_var_param(0xff04de1a, p.min_ack_delay);
    let rest10 = v2;
    let rest9 = spec_write_flag_param(0x2ab2, p.grease_quic_bit) + rest10;
    let rest8 = spec_write_cid_param(0x10, p.retry_src_cid) + rest9;
    let rest7 = spec_write_cid_param(0x0f, p.initial_src_cid) + rest8;
    lemma_read_cid(0x00, p.original_dst_cid, rest7, st);
    let st6 = ReadState { p: spec_set_cid(0x00, p.original_dst_cid, st.p), ..st };
    lemma_read_cid(0x0f, p.initial_src_cid, rest8, st6);
    let st7 = ReadState { p: spec_set_cid(0x0f, p.initial_src_cid, st6.p), ..st6 };
    lemma_read_cid(0x10, p.retry_src_cid, rest9, st7);
    let st8 = ReadState { p: spec_set_cid(0x10, p.retry_src_cid, st7.p), ..st7 };
    lemma_read_flag(0x2ab2, p.grease_quic_bit, rest10, st8);
    let st9 = ReadState {
        p: TransportParametersView { grease_quic_bit: p.grease_quic_bit, ..st8.p },
        ..st8
    };
    assert(v2 + e =~= v2);
    lemma_read_var(0xff04de1a, p.min_ack_delay, e, st9);
}

/// Reading the parameters after the integer ones sets them
#[verifier::rlimit(30)]
proof fn lemma_read_tail(p: TransportParametersView, st: ReadState)
    requires
        spec_params_encodable(p),
        st.p.stateless_reset_token is None,
        !st.p.disable_active_migration,
        st.p.max_datagram_frame_size is None,
        st.p.preferred_address is None,
        st.p.original_dst_cid is None,
        st.p.initial_src_cid is None,
        st.p.retry_src_cid is None,
        !st.p.grease_quic_bit,
        st.p.min_ack_delay is None,
    ensures
        spec_read_params(spec_write_tail(p), st) == ReadOutcome::Done(
            TransportParametersView { ints: st.p.ints, ..p },
        ),
{
    let rest6 = spec_write_tail_b(p);
    let rest5 = spec_write_pa_param(p.preferred_address) + rest6;
    let rest4 = spec_write_var_param(0x20, p.max_datagram_frame_size) + rest5;
    let rest3 = spec_write_flag_param(0x0c, p.disable_active_migration) + rest4;
    let rest2 = spec_write_token_param(p.stateless_reset_token) + rest3;
    assert((spec_varint_encode(182) + spec_varint_encode(0)) + rest2 =~= spec_varint_encode(182)
        + spec_varint_encode(0) + rest2);
    lemma_read_reserved(rest2, st);
    lemma_read_token(p.stateless_reset_token, rest3, st);
    let st2 = ReadState {
        p: TransportParametersView { stateless_reset_token: p.stateless_reset_token, ..st.p },
        ..st
    };
    lemma_read_flag(0x0c, p.disable_active_migration, rest4, st2);
    let st3 = ReadState {
        p: TransportParametersView { disable_active_migration: p.disable_active_migration, ..st2.p },
        ..st2
    };
    lemma_read_var(0x20, p.max_datagram_frame_size, rest5, st3);
    let st4 = ReadState {
        p: TransportParametersView { max_datagram_frame_size: p.max_datagram_frame_size, ..st3.p },
        ..st3
    };
    lemma_read_pa(p.preferred_address, rest6, st4);
    let st5 = ReadState {
        p: TransportParametersView { preferred_address: p.preferred_address, ..st4.p },
        ..st4
    };
    lemma_read_tail_b(p, st5);
}

/// Decoding the encoding of transport parameters gives them back: for encodable parameters that
/// are legal for the peer of an endpoint on `side`, reading what `write` produces succeeds with
/// the same parameters
pub proof fn lemma_params_roundtrip(side: Side, p: TransportParametersView)
    requires
        spec_params_encodable(p),
        !spec_params_illegal(side, p),
    ensures
        spec_read(side, spec_write(p)) == ReadOutcome::Done(p),
{
    let st0 = spec_initial_read_state();
    let w = spec_write_ints(p.ints, INT_PARAM_COUNT as nat);
    let tail = spec_write_tail(p);
    lemma_write_split(p);
    assert(st0.p.ints.len() == INT_PARAM_COUNT);
    lemma_read_ints(p.ints, INT_PARAM_COUNT as nat, tail, st0);
    let st1 = spec_apply_ints(p.ints, INT_PARAM_COUNT as nat, st0);
    lemma_apply_ints(p.ints, INT_PARAM_COUNT as nat, st0);
    assert forall|j: int| 0 <= j < INT_PARAM_COUNT implies #[trigger] st1.p.ints[j] == p.ints[j] by {
        assert(st0.p.ints[j] == spec_int_default(j));
    }
    assert(st1.p.ints =~= p.ints);
    lemma_read_tail(p, st1);
    assert(TransportParametersView { ints: st1.p.ints, ..p } == p);
}

} // verus!
