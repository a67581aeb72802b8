//! The length-prefixed frame codec of the duplex channel. A frame is a
//! `u64` little-endian payload length followed by the payload bytes. The
//! decoder is a byte-at-a-time state machine, so reads may arrive in any
//! chunking; the framing law at the bottom states that a well-formed stream
//! decodes to exactly the payload sequence that was framed.

use crate::bytesutil::{push_bytes, push_u64_le, read_u64_le};
use vstd::bytes::{spec_u64_from_le_bytes, spec_u64_to_le_bytes};
use vstd::prelude::*;

verus! {

/// One frame: length prefix plus payload.
pub open spec fn spec_frame(payload: Seq<u8>) -> Seq<u8> {
    spec_u64_to_le_bytes(payload.len() as u64) + payload
}

/// A whole outbound stream: each payload framed, in order.
pub open spec fn spec_frames(payloads: Seq<Seq<u8>>) -> Seq<u8>
    decreases payloads.len(),
{
    if payloads.len() == 0 {
        Seq::empty()
    } else {
        spec_frame(payloads[0]) + spec_frames(payloads.skip(1))
    }
}

/// Frame a payload for sending.
pub fn frame_for(payload: &Vec<u8>) -> (r: Vec<u8>)
    ensures
        r@ == spec_frame(payload@),
{
    let mut r: Vec<u8> = Vec::new();
    push_u64_le(&mut r, payload.len() as u64);
    push_bytes(&mut r, payload.as_slice());
    r
}

/// The decoder's abstract state: collecting length bytes, or collecting a
/// body of known length.
pub ghost enum DecoderModel {
    Length { got: Seq<u8> },
    Body { need: u64, got: Seq<u8> },
}

impl DecoderModel {
    pub open spec fn initial() -> DecoderModel {
        DecoderModel::Length { got: Seq::empty() }
    }
}

/// What one input byte does to the decoder: the new state and the completed
/// payload, if this byte finishes one.
pub open spec fn spec_step(m: DecoderModel, b: u8) -> (DecoderModel, Option<Seq<u8>>) {
    match m {
        DecoderModel::Length { got } => {
            if got.len() == 7 {
                let n = spec_u64_from_le_bytes(got.push(b));
                if n == 0 {
                    (DecoderModel::initial(), Some(Seq::empty()))
                } else {
                    (DecoderModel::Body { need: n, got: Seq::empty() }, None)
                }
            } else {
                (DecoderModel::Length { got: got.push(b) }, None)
            }
        },
        DecoderModel::Body { need, got } => {
            if got.len() + 1 == need {
                (DecoderModel::initial(), Some(got.push(b)))
            } else {
                (DecoderModel::Body { need, got: got.push(b) }, None)
            }
        },
    }
}

/// Run the decoder over a byte sequence, collecting completed payloads.
pub open spec fn spec_run(m: DecoderModel, bytes: Seq<u8>) -> (DecoderModel, Seq<Seq<u8>>)
    decreases bytes.len(),
{
    if bytes.len() == 0 {
        (m, Seq::empty())
    } else {
        let (m1, out) = spec_step(m, bytes[0]);
        let (m2, outs) = spec_run(m1, bytes.skip(1));
        (
            m2,
            match out {
                Some(p) => seq![p] + outs,
                None => outs,
            },
        )
    }
}

/// Feeding a concatenation is feeding the parts one after the other.
pub proof fn lemma_run_append(m: DecoderModel, a: Seq<u8>, b: Seq<u8>)
    ensures
        spec_run(m, a + b).0 == spec_run(spec_run(m, a).0, b).0,
        spec_run(m, a + b).1 == spec_run(m, a).1 + spec_run(spec_run(m, a).0, b).1,
    decreases a.len(),
{
    if a.len() == 0 {
        assert(a + b =~= b);
        assert(spec_run(m, a).1 + spec_run(spec_run(m, a).0, b).1 =~= spec_run(m, b).1);
    } else {
        let (m1, out) = spec_step(m, a[0]);
        assert((a + b)[0] == a[0]);
        assert((a + b).skip(1) =~= a.skip(1) + b);
        lemma_run_append(m1, a.skip(1), b);
        match out {
            Some(p) => {
                assert(seq![p] + (spec_run(m1, a.skip(1)).1 + spec_run(
                    spec_run(m1, a.skip(1)).0,
                    b,
                ).1) =~= (seq![p] + spec_run(m1, a.skip(1)).1) + spec_run(
                    spec_run(m1, a.skip(1)).0,
                    b,
                ).1);
            },
            None => {},
        }
    }
}

/// Feeding the 8 length bytes from the initial state.
proof fn lemma_run_length(s: Seq<u8>, j: int)
    requires
        s.len() == 8,
        0 <= j <= 7,
    ensures
        spec_u64_from_le_bytes(s) == 0 ==> spec_run(
            DecoderModel::Length { got: s.take(j) },
            s.skip(j),
        ).0 == DecoderModel::initial() && spec_run(
            DecoderModel::Length { got: s.take(j) },
            s.skip(j),
        ).1 == seq![Seq::<u8>::empty()],
        spec_u64_from_le_bytes(s) != 0 ==> spec_run(
            DecoderModel::Length { got: s.take(j) },
            s.skip(j),
        ).0 == (DecoderModel::Body { need: spec_u64_from_le_bytes(s), got: Seq::empty() })
            && spec_run(DecoderModel::Length { got: s.take(j) }, s.skip(j)).1 == Seq::<
            Seq<u8>,
        >::empty(),
    decreases 8 - j,
{
    let m = DecoderModel::Length { got: s.take(j) };
    let rest = s.skip(j);
    assert(rest[0] == s[j]);
    if j == 7 {
        assert(s.take(7).push(s[7]) =~= s);
        assert(rest.skip(1) =~= Seq::<u8>::empty());
        let n = spec_u64_from_le_bytes(s);
        let m1 = spec_step(m, s[7]).0;
        assert(spec_run(m1, Seq::<u8>::empty()).0 == m1);
        assert(spec_run(m1, Seq::<u8>::empty()).1 == Seq::<Seq<u8>>::empty());
        if n == 0 {
            assert(spec_step(m, s[7]).0 == DecoderModel::initial());
            assert(spec_step(m, s[7]).1 == Some(Seq::<u8>::empty()));
            assert(seq![Seq::<u8>::empty()] + Seq::<Seq<u8>>::empty() =~= seq![
                Seq::<u8>::empty(),
            ]);
        } else {
            assert(spec_step(m, s[7]).0 == (DecoderModel::Body { need: n, got: Seq::empty() }));
        }
    } else {
        assert(s.take(j).push(s[j]) =~= s.take(j + 1));
        assert(spec_step(m, s[j]).0 == (DecoderModel::Length { got: s.take(j + 1) }));
        assert(rest.skip(1) =~= s.skip(j + 1));
        lemma_run_length(s, j + 1);
        assert(spec_run(m, rest).0 == spec_run(
            DecoderModel::Length { got: s.take(j + 1) },
            s.skip(j + 1),
        ).0);
        assert(spec_run(m, rest).1 =~= spec_run(
            DecoderModel::Length { got: s.take(j + 1) },
            s.skip(j + 1),
        ).1);
    }
}

/// Feeding the remaining body bytes completes exactly one payload and
/// returns to the initial state.
proof fn lemma_run_body(p: Seq<u8>, j: int)
    requires
        1 <= p.len() <= u64::MAX,
        0 <= j < p.len(),
    ensures
        spec_run(DecoderModel::Body { need: p.len() as u64, got: p.take(j) }, p.skip(j)).0
            == DecoderModel::initial(),
        spec_run(DecoderModel::Body { need: p.len() as u64, got: p.take(j) }, p.skip(j)).1
            == seq![p],
    decreases p.len() - j,
{
    let m = DecoderModel::Body { need: p.len() as u64, got: p.take(j) };
    let rest = p.skip(j);
    assert(rest[0] == p[j]);
    if j == p.len() - 1 {
        assert(p.take(j).push(p[j]) =~= p);
        assert(spec_step(m, p[j]).0 == DecoderModel::initial());
        assert(spec_step(m, p[j]).1 == Some(p));
        assert(rest.skip(1) =~= Seq::<u8>::empty());
        let m1 = spec_step(m, p[j]).0;
        assert(spec_run(m1, Seq::<u8>::empty()).0 == m1);
        assert(spec_run(m1, Seq::<u8>::empty()).1 == Seq::<Seq<u8>>::empty());
        assert(seq![p] + Seq::<Seq<u8>>::empty() =~= seq![p]);
    } else {
        assert(p.take(j).push(p[j]) =~= p.take(j + 1));
        assert(spec_step(m, p[j]).0 == (DecoderModel::Body {
            need: p.len() as u64,
            got: p.take(j + 1),
        }));
        assert(rest.skip(1) =~= p.skip(j + 1));
        lemma_run_body(p, j + 1);
        assert(spec_run(m, rest).0 == spec_run(
            DecoderModel::Body { need: p.len() as u64, got: p.take(j + 1) },
            p.skip(j + 1),
        ).0);
        assert(spec_run(m, rest).1 =~= spec_run(
            DecoderModel::Body { need: p.len() as u64, got: p.take(j + 1) },
            p.skip(j + 1),
        ).1);
    }
}

/// One whole frame decodes to its payload, ending in the initial state.
pub proof fn lemma_run_frame(p: Seq<u8>)
    requires
        p.len() <= u64::MAX,
    ensures
        spec_run(DecoderModel::initial(), spec_frame(p)).0 == DecoderModel::initial(),
        spec_run(DecoderModel::initial(), spec_frame(p)).1 == seq![p],
{
    vstd::bytes::lemma_auto_spec_u64_to_from_le_bytes();
    let enc = spec_u64_to_le_bytes(p.len() as u64);
    lemma_run_append(DecoderModel::initial(), enc, p);
    assert(enc.take(0) =~= Seq::<u8>::empty());
    assert(enc.skip(0) =~= enc);
    lemma_run_length(enc, 0);
    if p.len() == 0 {
        assert(spec_run(DecoderModel::initial(), Seq::<u8>::empty()).1 =~= Seq::<
            Seq<u8>,
        >::empty());
        assert(p =~= Seq::<u8>::empty());
        assert(seq![Seq::<u8>::empty()] + Seq::<Seq<u8>>::empty() =~= seq![p]);
    } else {
        assert(p.take(0) =~= Seq::<u8>::empty());
        assert(p.skip(0) =~= p);
        lemma_run_body(p, 0);
        assert(Seq::<Seq<u8>>::empty() + seq![p] =~= seq![p]);
    }
}

/// Framing law: a stream of framed payloads decodes, in FIFO order and
/// without splitting or merging, to exactly those payloads, and leaves the
/// decoder back in its initial state.
pub proof fn lemma_framing(payloads: Seq<Seq<u8>>)
    requires
        forall|i: int| 0 <= i < payloads.len() ==> (#[trigger] payloads[i]).len() <= u64::MAX,
    ensures
        spec_run(DecoderModel::initial(), spec_frames(payloads)).0 == DecoderModel::initial(),
        spec_run(DecoderModel::initial(), spec_frames(payloads)).1 == payloads,
    decreases payloads.len(),
{
    if payloads.len() == 0 {
        assert(spec_run(DecoderModel::initial(), spec_frames(payloads)).1 =~= payloads);
    } else {
        let p = payloads[0];
        lemma_run_frame(p);
        lemma_run_append(DecoderModel::initial(), spec_frame(p), spec_frames(payloads.skip(1)));
        assert forall|i: int| 0 <= i < payloads.skip(1).len() implies (#[trigger] payloads.skip(
            1,
        )[i]).len() <= u64::MAX by {
            assert(payloads.skip(1)[i] == payloads[i + 1]);
        }
        lemma_framing(payloads.skip(1));
        assert(seq![p] + payloads.skip(1) =~= payloads);
    }
}

/// The decoder phase, mirroring the reader's two buffer states.
enum DecoderPhase {
    Length,
    Body,
}

/// An incremental frame decoder fed from the stream in arbitrary chunks.
pub struct FrameDecoder {
    phase: DecoderPhase,
    buf: Vec<u8>,
    need: u64,
}

impl FrameDecoder {
    #[verifier::type_invariant]
    spec fn inv(&self) -> bool {
        match self.phase {
            DecoderPhase::Length => self.buf@.len() < 8,
            DecoderPhase::Body => self.need >= 1 && (self.buf@.len() as u64) < self.need,
        }
    }

    /// The decoder's abstract state.
    pub closed spec fn model(&self) -> DecoderModel {
        match self.phase {
            DecoderPhase::Length => DecoderModel::Length { got: self.buf@ },
            DecoderPhase::Body => DecoderModel::Body { need: self.need, got: self.buf@ },
        }
    }

    pub fn new() -> (r: FrameDecoder)
        ensures
            r.model() == DecoderModel::initial(),
    {
        FrameDecoder { phase: DecoderPhase::Length, buf: Vec::new(), need: 0 }
    }

    /// Feed one byte; returns a payload when this byte completes one.
    pub fn push_byte(&mut self, b: u8) -> (r: Option<Vec<u8>>)
        ensures
            final(self).model() == spec_step(old(self).model(), b).0,
            match (r, spec_step(old(self).model(), b).1) {
                (Some(v), Some(s)) => v@ == s,
                (None, None) => true,
                _ => false,
            },
    {
        proof {
            use_type_invariant(&*self);
        }
        let mut buf: Vec<u8> = Vec::new();
        core::mem::swap(&mut buf, &mut self.buf);
        buf.push(b);
        match self.phase {
            DecoderPhase::Length => {
                if buf.len() == 8 {
                    let n = read_u64_le(&buf, 0);
                    proof {
                        assert(buf@.subrange(0, 8) =~= buf@);
                        assert(old(self).buf@.push(b) =~= buf@);
                    }
                    if n == 0 {
                        return Some(Vec::new());
                    }
                    self.need = n;
                    self.phase = DecoderPhase::Body;
                    return None;
                }
                core::mem::swap(&mut buf, &mut self.buf);
                None
            },
            DecoderPhase::Body => {
                if (buf.len() as u64) == self.need {
                    self.phase = DecoderPhase::Length;
                    self.need = 0;
                    return Some(buf);
                }
                core::mem::swap(&mut buf, &mut self.buf);
                None
            },
        }
    }

    /// Feed a chunk of stream bytes; returns the payloads completed within
    /// it, in order.
    pub fn push_chunk(&mut self, data: &[u8]) -> (msgs: Vec<Vec<u8>>)
        ensures
            final(self).model() == spec_run(old(self).model(), data@).0,
            msgs@.map(|i: int, v: Vec<u8>| v@) == spec_run(old(self).model(), data@).1,
    {
        let mut msgs: Vec<Vec<u8>> = Vec::new();
        let mut i: usize = 0;
        while i < data.len()
            invariant
                i <= data@.len(),
                self.model() == spec_run(old(self).model(), data@.take(i as int)).0,
                msgs@.map(|k: int, v: Vec<u8>| v@) == spec_run(
                    old(self).model(),
                    data@.take(i as int),
                ).1,
            decreases data@.len() - i,
        {
            let ghost pre = self.model();
            let ghost done = spec_run(old(self).model(), data@.take(i as int)).1;
            let b = data[i];
            let out = self.push_byte(b);
            proof {
                lemma_run_append(old(self).model(), data@.take(i as int), seq![b]);
                assert(data@.take(i as int) + seq![b] =~= data@.take(i + 1));
                assert(seq![b].skip(1) =~= Seq::<u8>::empty());
                assert(seq![b][0] == b);
            }
            match out {
                Some(v) => {
                    msgs.push(v);
                    proof {
                        let p = spec_step(pre, b).1.unwrap();
                        assert(spec_run(spec_step(pre, b).0, Seq::<u8>::empty()).0 == spec_step(
                            pre,
                            b,
                        ).0);
                        assert(spec_run(spec_step(pre, b).0, Seq::<u8>::empty()).1 == Seq::<
                            Seq<u8>,
                        >::empty());
                        assert(spec_run(pre, seq![b]).1 =~= seq![p]);
                        assert(msgs@.map(|k: int, v: Vec<u8>| v@) =~= done + seq![p]);
                        assert(done + seq![p] =~= spec_run(old(self).model(), data@.take(i + 1)).1);
                    }
                },
                None => {
                    proof {
                        assert(spec_run(spec_step(pre, b).0, Seq::<u8>::empty()).0 == spec_step(
                            pre,
                            b,
                        ).0);
                        assert(spec_run(spec_step(pre, b).0, Seq::<u8>::empty()).1 == Seq::<
                            Seq<u8>,
                        >::empty());
                        assert(spec_run(pre, seq![b]).1 =~= Seq::<Seq<u8>>::empty());
                        assert(done + Seq::<Seq<u8>>::empty() =~= done);
                        assert(msgs@.map(|k: int, v: Vec<u8>| v@) =~= spec_run(
                            old(self).model(),
                            data@.take(i + 1),
                        ).1);
                    }
                },
            }
            i = i + 1;
        }
        proof {
            assert(data@.take(data@.len() as int) =~= data@);
        }
        msgs
    }
}

} // verus!
