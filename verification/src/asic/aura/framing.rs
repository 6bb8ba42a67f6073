//! Byte-level framing of the chip bus.
//!
//! The bus carries 16-byte responses and 92-byte hit frames side by side, with
//! preambles and noise between them. [`drain_frames`] recognises both magics,
//! where [`FrameCodec`](super::protocol::FrameCodec) syncs on the response
//! magic alone and would drop hit frames.

use super::protocol::{
    has_command_magic, has_response_magic, hit_fields, hit_frame, is_hit, is_response,
    lemma_hit_round_trip, lemma_response_round_trip, response_fields, response_frame, Hit, HitFrame,
    Response, COMMAND_MAGIC, FRAME_LEN, LONG_FRAME_LEN, RESPONSE_MAGIC,
};
use crate::buffer::{advance, as_slice, buffered};
use crate::wire::{lemma_value_unfold, u32_from_be, u32_from_le};
use bytes::BytesMut;
use vstd::prelude::*;

verus! {

/// What draining a run of bytes yields: the intact frames in it, in order of
/// arrival per kind, and the bytes that stay behind.
#[verifier::ext_equal]
pub struct Drained {
    /// Responses, first to last.
    pub responses: Seq<Response>,
    /// Hits, first to last.
    pub hits: Seq<Hit>,
    /// The incomplete tail.
    pub rest: Seq<u8>,
}

/// The frames in `s`.
///
/// An intact frame at the head is taken out whole. A frame at the head that
/// is not complete yet ends the drain, as does a tail too short for a magic.
/// Anything else (noise, a preamble, a frame with a bad CRC) loses one byte.
pub open spec fn drain(s: Seq<u8>) -> Drained
    decreases s.len(),
{
    if s.len() < 4 {
        Drained { responses: Seq::empty(), hits: Seq::empty(), rest: s }
    } else if has_response_magic(s) && s.len() < FRAME_LEN {
        Drained { responses: Seq::empty(), hits: Seq::empty(), rest: s }
    } else if has_response_magic(s) && is_response(s.take(FRAME_LEN as int)) {
        let later = drain(s.skip(FRAME_LEN as int));
        Drained {
            responses: seq![response_fields(s.take(FRAME_LEN as int))] + later.responses,
            ..later
        }
    } else if !has_response_magic(s) && has_command_magic(s) && s.len() < LONG_FRAME_LEN {
        Drained { responses: Seq::empty(), hits: Seq::empty(), rest: s }
    } else if !has_response_magic(s) && has_command_magic(s) && is_hit(
        s.take(LONG_FRAME_LEN as int),
    ) {
        let later = drain(s.skip(LONG_FRAME_LEN as int));
        Drained { hits: seq![hit_fields(s.take(LONG_FRAME_LEN as int))] + later.hits, ..later }
    } else {
        drain(s.skip(1))
    }
}

/// What a run of hit frames reports.
pub open spec fn reported(hits: Seq<HitFrame>) -> Seq<Hit> {
    hits.map_values(|hit: HitFrame| hit@)
}

/// Parse every complete frame at the head of `buf`, returning the 16-byte
/// responses and 92-byte hit frames found.
///
/// Frame-syncs on both magics: response frames start with
/// [`RESPONSE_MAGIC`], hit frames with [`COMMAND_MAGIC`]. Junk (including any
/// wire preambles) is dropped a byte at a time; an incomplete frame at the
/// tail is left in `buf` for the next chunk. Frames that fail CRC are dropped
/// one byte at a time to resync.
pub fn drain_frames(buf: &mut BytesMut) -> (r: (Vec<Response>, Vec<HitFrame>))
    ensures
        r.0@ == drain(buffered(*old(buf))).responses,
        reported(r.1@) == drain(buffered(*old(buf))).hits,
        buffered(*final(buf)) == drain(buffered(*old(buf))).rest,
{
    let ghost whole = drain(buffered(*buf));
    let mut responses: Vec<Response> = Vec::new();
    let mut hits: Vec<HitFrame> = Vec::new();
    assert(whole.responses =~= responses@ + whole.responses);
    assert(whole.hits =~= reported(hits@) + whole.hits);
    loop
        invariant
            whole.responses == responses@ + drain(buffered(*buf)).responses,
            whole.hits == reported(hits@) + drain(buffered(*buf)).hits,
            whole.rest == drain(buffered(*buf)).rest,
        ensures
            whole.responses == responses@,
            whole.hits == reported(hits@),
            whole.rest == buffered(*buf),
        decreases buffered(*buf).len(),
    {
        let ghost s = buffered(*buf);
        let len: usize = buf.len();
        if len < 4 {
            assert(responses@ + Seq::<Response>::empty() =~= responses@);
            assert(reported(hits@) + Seq::<Hit>::empty() =~= reported(hits@));
            break;
        }
        assert(s.take(4) =~= s.subrange(0, 4));
        if u32_from_be(as_slice(buf), 0) == RESPONSE_MAGIC {
            if len < FRAME_LEN {
                assert(responses@ + Seq::<Response>::empty() =~= responses@);
                assert(reported(hits@) + Seq::<Hit>::empty() =~= reported(hits@));
                break;
            }
            assert(s.take(FRAME_LEN as int) =~= s.subrange(0, FRAME_LEN as int));
            match Response::parse(vstd::slice::slice_subrange(as_slice(buf), 0, FRAME_LEN)) {
                Ok(response) => {
                    let ghost later = drain(s.skip(FRAME_LEN as int));
                    assert(responses@ + (seq![response] + later.responses) =~= responses@.push(
                        response,
                    ) + later.responses);
                    responses.push(response);
                    advance(buf, FRAME_LEN);
                },
                Err(_) => {
                    advance(buf, 1);
                },
            }
        } else if u32_from_le(as_slice(buf), 0) == COMMAND_MAGIC {
            if len < LONG_FRAME_LEN {
                assert(responses@ + Seq::<Response>::empty() =~= responses@);
                assert(reported(hits@) + Seq::<Hit>::empty() =~= reported(hits@));
                break;
            }
            assert(s.take(LONG_FRAME_LEN as int) =~= s.subrange(0, LONG_FRAME_LEN as int));
            match HitFrame::parse(vstd::slice::slice_subrange(as_slice(buf), 0, LONG_FRAME_LEN)) {
                Ok(hit) => {
                    let ghost later = drain(s.skip(LONG_FRAME_LEN as int));
                    assert(reported(hits@) + (seq![hit@] + later.hits) =~= reported(
                        hits@.push(hit),
                    ) + later.hits);
                    hits.push(hit);
                    advance(buf, LONG_FRAME_LEN);
                },
                Err(_) => {
                    advance(buf, 1);
                },
            }
        } else {
            advance(buf, 1);
        }
    }
    (responses, hits)
}

/// Draining works chunk by chunk: bytes that arrive in two pieces yield the
/// same frames and leave the same tail as the same bytes in one piece.
pub proof fn lemma_drain_in_chunks(a: Seq<u8>, b: Seq<u8>)
    ensures
        drain(a + b) == (Drained {
            responses: drain(a).responses + drain(drain(a).rest + b).responses,
            hits: drain(a).hits + drain(drain(a).rest + b).hits,
            rest: drain(drain(a).rest + b).rest,
        }),
    decreases a.len(),
{
    let d = drain(a);
    let e = drain(d.rest + b);
    if a.len() < 4 {
        assert(d.responses + e.responses =~= e.responses);
        assert(d.hits + e.hits =~= e.hits);
    } else {
        assert((a + b).take(4) =~= a.take(4));
        if has_response_magic(a) {
            if a.len() < FRAME_LEN {
                assert(d.responses + e.responses =~= e.responses);
                assert(d.hits + e.hits =~= e.hits);
            } else {
                assert((a + b).take(FRAME_LEN as int) =~= a.take(FRAME_LEN as int));
                if is_response(a.take(FRAME_LEN as int)) {
                    let tail = a.skip(FRAME_LEN as int);
                    lemma_drain_in_chunks(tail, b);
                    assert((a + b).skip(FRAME_LEN as int) =~= tail + b);
                    assert(drain(a + b) =~= (Drained {
                        responses: d.responses + e.responses,
                        hits: d.hits + e.hits,
                        rest: e.rest,
                    }));
                } else {
                    lemma_drain_in_chunks(a.skip(1), b);
                    assert((a + b).skip(1) =~= a.skip(1) + b);
                }
            }
        } else if has_command_magic(a) {
            if a.len() < LONG_FRAME_LEN {
                assert(d.responses + e.responses =~= e.responses);
                assert(d.hits + e.hits =~= e.hits);
            } else {
                assert((a + b).take(LONG_FRAME_LEN as int) =~= a.take(LONG_FRAME_LEN as int));
                if is_hit(a.take(LONG_FRAME_LEN as int)) {
                    let tail = a.skip(LONG_FRAME_LEN as int);
                    lemma_drain_in_chunks(tail, b);
                    assert((a + b).skip(LONG_FRAME_LEN as int) =~= tail + b);
                    assert(drain(a + b) =~= (Drained {
                        responses: d.responses + e.responses,
                        hits: d.hits + e.hits,
                        rest: e.rest,
                    }));
                } else {
                    lemma_drain_in_chunks(a.skip(1), b);
                    assert((a + b).skip(1) =~= a.skip(1) + b);
                }
            }
        } else {
            lemma_drain_in_chunks(a.skip(1), b);
            assert((a + b).skip(1) =~= a.skip(1) + b);
        }
    }
}

/// What stays behind is the end of what was drained, is shorter than the
/// longest frame, and holds no frame that could be taken out yet.
pub proof fn lemma_drain_rest(s: Seq<u8>)
    ensures
        drain(s).rest.len() < LONG_FRAME_LEN,
        drain(s).rest.len() <= s.len(),
        drain(s).rest == s.skip(s.len() - drain(s).rest.len()),
        drain(drain(s).rest) == (Drained {
            responses: Seq::empty(),
            hits: Seq::empty(),
            rest: drain(s).rest,
        }),
    decreases s.len(),
{
    if s.len() < 4 || (has_response_magic(s) && s.len() < FRAME_LEN) || (!has_response_magic(s)
        && has_command_magic(s) && s.len() < LONG_FRAME_LEN) {
        assert(s.skip(0) =~= s);
    } else {
        let k: int = if has_response_magic(s) && is_response(s.take(FRAME_LEN as int)) {
            FRAME_LEN as int
        } else if !has_response_magic(s) && has_command_magic(s) && is_hit(
            s.take(LONG_FRAME_LEN as int),
        ) {
            LONG_FRAME_LEN as int
        } else {
            1
        };
        let tail = s.skip(k);
        lemma_drain_rest(tail);
        assert(drain(s).rest == drain(tail).rest);
        assert(tail.skip(tail.len() - drain(tail).rest.len()) =~= s.skip(
            s.len() - drain(s).rest.len(),
        ));
    }
}

/// Zero bytes, such as a preamble, leave no trace before the bytes that
/// follow them.
pub proof fn lemma_drain_skips_zeros(count: nat, tail: Seq<u8>)
    requires
        tail.len() >= 4,
    ensures
        drain(Seq::new(count, |i: int| 0u8) + tail) == drain(tail),
    decreases count,
{
    let s = Seq::new(count, |i: int| 0u8) + tail;
    if count == 0 {
        assert(s =~= tail);
    } else {
        lemma_value_unfold(s.take(4));
        assert(s.take(4)[0] == 0u8);
        assert(s.skip(1) =~= Seq::new((count - 1) as nat, |i: int| 0u8) + tail);
        lemma_drain_skips_zeros((count - 1) as nat, tail);
    }
}

/// A response is read back from the bus: its frame, behind any run of zero
/// bytes, yields exactly that response before whatever follows.
pub proof fn lemma_drain_reads_response_back(count: nat, response: Response, tail: Seq<u8>)
    ensures
        drain(Seq::new(count, |i: int| 0u8) + (response_frame(response) + tail)) == (Drained {
            responses: seq![response] + drain(tail).responses,
            ..drain(tail)
        }),
{
    let s = response_frame(response) + tail;
    lemma_response_round_trip(response);
    assert(s.take(FRAME_LEN as int) =~= response_frame(response));
    assert(s.take(4) =~= response_frame(response).take(4));
    assert(s.skip(FRAME_LEN as int) =~= tail);
    lemma_drain_skips_zeros(count, s);
}

/// A hit is read back from the bus: its frame, behind any run of zero bytes,
/// yields exactly that hit before whatever follows.
pub proof fn lemma_drain_reads_hit_back(
    count: nat,
    chip: u8,
    reg: u8,
    nbits: u8,
    id_hi_seq: u8,
    header: Seq<u8>,
    tail: Seq<u8>,
)
    requires
        header.len() == 80,
    ensures
        drain(
            Seq::new(count, |i: int| 0u8) + (hit_frame(chip, reg, nbits, id_hi_seq, header) + tail),
        ) == (Drained {
            hits: seq![hit_fields(hit_frame(chip, reg, nbits, id_hi_seq, header))] + drain(
                tail,
            ).hits,
            ..drain(tail)
        }),
{
    let frame = hit_frame(chip, reg, nbits, id_hi_seq, header);
    let s = frame + tail;
    lemma_hit_round_trip(chip, reg, nbits, id_hi_seq, header);
    assert(s.take(LONG_FRAME_LEN as int) =~= frame);
    assert(s.take(4) =~= frame.take(4));
    lemma_value_unfold(s.take(4));
    assert(s.skip(LONG_FRAME_LEN as int) =~= tail);
    lemma_drain_skips_zeros(count, s);
}

} // verus!
