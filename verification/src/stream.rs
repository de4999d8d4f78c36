//! Streaming use of the frame decoder.
//!
//! The decoder never assumes frame alignment with read boundaries: bytes
//! arrive in arbitrary chunks and are appended to a buffer that one decode
//! attempt at a time consumes from the front. This module models that
//! process and proves that the sequence of decoded frames depends only on
//! the bytes fed, never on how they were split into chunks.

use vstd::prelude::*;

use crate::codec::{
    decode_consumed, decode_event, decode_step, lemma_consumed_le_len, DecodeEvent,
};
use crate::frame::SensorFrame;

verus! {

/// Every frame that repeated decode attempts extract from `b`, in order,
/// stopping when an attempt reports that more input is needed.
pub open spec fn decode_stream(b: Seq<u8>) -> Seq<SensorFrame>
    decreases b.len(),
{
    let c = decode_consumed(b);
    if c <= 0 || c > b.len() {
        Seq::empty()
    } else {
        match decode_event(b) {
            DecodeEvent::FrameDecoded(f) => seq![f] + decode_stream(
                b.subrange(c, b.len() as int),
            ),
            _ => decode_stream(b.subrange(c, b.len() as int)),
        }
    }
}

/// The bytes left in the buffer after repeated decode attempts against `b`
/// have consumed all they can.
pub open spec fn residual(b: Seq<u8>) -> Seq<u8>
    decreases b.len(),
{
    let c = decode_consumed(b);
    if c <= 0 || c > b.len() {
        b
    } else {
        residual(b.subrange(c, b.len() as int))
    }
}

/// A drained buffer is quiescent: the next decode attempt consumes nothing.
pub proof fn lemma_residual_quiescent(b: Seq<u8>)
    ensures
        decode_consumed(residual(b)) == 0,
    decreases b.len(),
{
    lemma_consumed_le_len(b);
    let c = decode_consumed(b);
    if 0 < c <= b.len() {
        lemma_residual_quiescent(b.subrange(c, b.len() as int));
    }
}

/// Appending bytes does not change the least marker position found from `i`,
/// as long as one was found at all.
proof fn lemma_find_marker_extend(b: Seq<u8>, ext: Seq<u8>, i: int)
    requires
        crate::codec::find_marker_from(b, i) is Some,
    ensures
        crate::codec::find_marker_from(b + ext, i) == crate::codec::find_marker_from(b, i),
    decreases b.len() - i,
{
    assert((b + ext)[i] == b[i]);
    assert((b + ext)[i + 1] == b[i + 1]);
    if !(b[i] == crate::codec::MARKER_0 && b[i + 1] == crate::codec::MARKER_1) {
        lemma_find_marker_extend(b, ext, i + 1);
    }
}

/// A decode attempt that does not wait for more input reports the same event
/// and consumes the same bytes however the buffer later grows.
pub proof fn lemma_decode_extend(b: Seq<u8>, ext: Seq<u8>)
    requires
        !(decode_event(b) is NeedMoreData),
    ensures
        decode_event(b + ext) == decode_event(b),
        decode_consumed(b + ext) == decode_consumed(b),
{
    lemma_find_marker_extend(b, ext, 0);
    crate::codec::lemma_find_marker_from_bounds(b, 0);
    let k = crate::codec::find_marker(b)->0;
    assert(b.len() >= k + 4);
    assert((b + ext)[k + 2] == b[k + 2]);
    assert((b + ext)[k + 3] == b[k + 3]);
    if crate::codec::be16(b[k + 2], b[k + 3]) == crate::codec::EXPECTED_FRAME_LENGTH {
        assert(b.len() >= k + crate::codec::FRAME_TOTAL_LEN);
        assert((b + ext).subrange(k, k + 30) =~= b.subrange(k, k + 30));
        assert((b + ext)[k + 30] == b[k + 30]);
        assert((b + ext)[k + 31] == b[k + 31]);
        if crate::codec::checksum_at(b, k) == crate::codec::be16(b[k + 30], b[k + 31]) {
            assert forall|i: int| k <= i < k + 32 implies (b + ext)[i] == b[i] by {}
            assert(crate::codec::frame_at(b + ext, k) == crate::codec::frame_at(b, k));
        }
    }
}

/// Decoding a buffer extended by `ext` yields the frames of the buffer alone
/// followed by the frames of its residue joined with `ext`; the residues
/// agree likewise.
pub proof fn lemma_stream_extend(b: Seq<u8>, ext: Seq<u8>)
    ensures
        decode_stream(b + ext) == decode_stream(b) + decode_stream(residual(b) + ext),
        residual(b + ext) == residual(residual(b) + ext),
    decreases b.len(),
{
    lemma_consumed_le_len(b);
    let c = decode_consumed(b);
    if c == 0 {
        assert(decode_stream(b) == Seq::<SensorFrame>::empty());
        assert(residual(b) == b);
        assert(Seq::<SensorFrame>::empty() + decode_stream(b + ext) =~= decode_stream(b + ext));
    } else {
        lemma_decode_extend(b, ext);
        let bc = b.subrange(c, b.len() as int);
        assert((b + ext).subrange(c, (b + ext).len() as int) =~= bc + ext);
        lemma_stream_extend(bc, ext);
        assert(residual(b) == residual(bc));
        match decode_event(b) {
            DecodeEvent::FrameDecoded(f) => {
                assert(decode_stream(b) == seq![f] + decode_stream(bc));
                assert(decode_stream(b + ext) == seq![f] + decode_stream(bc + ext));
                assert(seq![f] + (decode_stream(bc) + decode_stream(residual(bc) + ext)) =~= (
                seq![f] + decode_stream(bc)) + decode_stream(residual(bc) + ext));
            },
            _ => {},
        }
    }
}

/// The bytes of all chunks, concatenated in arrival order.
pub open spec fn concat_chunks(chunks: Seq<Seq<u8>>) -> Seq<u8>
    decreases chunks.len(),
{
    if chunks.len() == 0 {
        Seq::empty()
    } else {
        chunks[0] + concat_chunks(chunks.subrange(1, chunks.len() as int))
    }
}

/// The frames a stateful decoder emits when the chunks arrive one at a time:
/// each chunk is appended to the pending buffer, every complete frame is
/// decoded, and the undecoded tail is carried to the next chunk.
pub open spec fn stream_chunks(buffer: Seq<u8>, chunks: Seq<Seq<u8>>) -> Seq<SensorFrame>
    decreases chunks.len(),
{
    if chunks.len() == 0 {
        Seq::empty()
    } else {
        let fed = buffer + chunks[0];
        decode_stream(fed) + stream_chunks(residual(fed), chunks.subrange(1, chunks.len() as int))
    }
}

/// Streaming equivalence: starting from a quiescent pending buffer, feeding
/// the input chunk by chunk emits exactly the frames that one decode pass
/// over the whole input yields — however the input was chunked.
pub proof fn lemma_streaming_equivalence(buffer: Seq<u8>, chunks: Seq<Seq<u8>>)
    requires
        decode_consumed(buffer) == 0,
    ensures
        stream_chunks(buffer, chunks) == decode_stream(buffer + concat_chunks(chunks)),
    decreases chunks.len(),
{
    if chunks.len() == 0 {
        assert(buffer + concat_chunks(chunks) =~= buffer);
        assert(decode_stream(buffer) == Seq::<SensorFrame>::empty());
    } else {
        let rest = chunks.subrange(1, chunks.len() as int);
        let fed = buffer + chunks[0];
        lemma_residual_quiescent(fed);
        lemma_streaming_equivalence(residual(fed), rest);
        lemma_stream_extend(fed, concat_chunks(rest));
        assert(fed + concat_chunks(rest) =~= buffer + concat_chunks(chunks));
    }
}

/// A stream that is exactly a run of well-formed frames, back to back, loses
/// nothing: decoding yields every frame, in order.
pub proof fn lemma_clean_stream_decodes_every_frame(bs: Seq<Seq<u8>>)
    requires
        forall|i: int|
            0 <= i < bs.len() ==> (#[trigger] bs[i]).len() == crate::codec::FRAME_TOTAL_LEN
                && crate::codec::well_formed_frame_at(bs[i], 0),
    ensures
        decode_stream(concat_chunks(bs)) == bs.map_values(|b: Seq<u8>| crate::codec::frame_at(b, 0)),
    decreases bs.len(),
{
    let to_frame = |b: Seq<u8>| crate::codec::frame_at(b, 0);
    if bs.len() == 0 {
        assert(decode_stream(concat_chunks(bs)) =~= Seq::<SensorFrame>::empty());
        assert(bs.map_values(to_frame) =~= Seq::<SensorFrame>::empty());
    } else {
        let b0 = bs[0];
        let rest = bs.subrange(1, bs.len() as int);
        let whole = concat_chunks(bs);
        crate::codec::lemma_decodes_well_formed_frame(b0);
        lemma_decode_extend(b0, concat_chunks(rest));
        lemma_consumed_le_len(whole);
        assert(whole == b0 + concat_chunks(rest));
        assert(whole.subrange(
            crate::codec::FRAME_TOTAL_LEN as int,
            whole.len() as int,
        ) =~= concat_chunks(rest));
        lemma_clean_stream_decodes_every_frame(rest);
        assert(decode_stream(whole) == seq![to_frame(b0)] + rest.map_values(to_frame));
        assert(bs.map_values(to_frame) =~= seq![to_frame(b0)] + rest.map_values(to_frame));
    }
}

/// A well-formed frame seen through a dropped prefix is the same well-formed
/// frame at the shifted position.
proof fn lemma_frame_shift(b: Seq<u8>, c: int, k: int)
    requires
        0 <= c <= b.len(),
        crate::codec::well_formed_frame_at(b.subrange(c, b.len() as int), k),
    ensures
        crate::codec::well_formed_frame_at(b, k + c),
        crate::codec::frame_at(b, k + c) == crate::codec::frame_at(b.subrange(c, b.len() as int), k),
{
    let bc = b.subrange(c, b.len() as int);
    assert(bc.subrange(k, k + 30) =~= b.subrange(k + c, k + c + 30));
    assert(crate::codec::frame_at(b, k + c) == crate::codec::frame_at(bc, k));
}

/// Whether `f` reads back verbatim from a well-formed frame somewhere in `b`.
pub open spec fn frame_present(b: Seq<u8>, f: SensorFrame) -> bool {
    exists|k: int|
        #[trigger] crate::codec::well_formed_frame_at(b, k) && f == crate::codec::frame_at(b, k)
}

/// The decoder never invents readings: every frame it emits was present in
/// the input bytes.
pub proof fn lemma_no_invented_frames(b: Seq<u8>)
    ensures
        forall|i: int|
            0 <= i < decode_stream(b).len() ==> frame_present(b, #[trigger] decode_stream(b)[i]),
    decreases b.len(),
{
    lemma_consumed_le_len(b);
    let c = decode_consumed(b);
    if 0 < c <= b.len() {
        let bc = b.subrange(c, b.len() as int);
        lemma_no_invented_frames(bc);
        crate::codec::lemma_find_marker_from_bounds(b, 0);
        let emitted: int = match decode_event(b) {
            DecodeEvent::FrameDecoded(_) => 1,
            _ => 0,
        };
        assert forall|i: int| 0 <= i < decode_stream(b).len() implies frame_present(
            b,
            decode_stream(b)[i],
        ) by {
            if i < emitted {
                let k0 = crate::codec::find_marker(b)->0;
                assert(crate::codec::well_formed_frame_at(b, k0) && decode_stream(b)[i]
                    == crate::codec::frame_at(b, k0));
            } else {
                let j = i - emitted;
                assert(decode_stream(bc)[j] == decode_stream(b)[i]);
                assert(frame_present(bc, decode_stream(bc)[j]));
                let k1 = choose|k1: int|
                    #[trigger] crate::codec::well_formed_frame_at(bc, k1) && decode_stream(bc)[j]
                        == crate::codec::frame_at(bc, k1);
                lemma_frame_shift(b, c, k1);
                assert(crate::codec::well_formed_frame_at(b, k1 + c) && decode_stream(b)[i]
                    == crate::codec::frame_at(b, k1 + c));
            }
        }
    }
}

/// Two chunkings of the same bytes, each fed to a fresh decoder, emit the
/// same sequence of frames.
pub proof fn lemma_chunking_immaterial(a: Seq<Seq<u8>>, b: Seq<Seq<u8>>)
    requires
        concat_chunks(a) == concat_chunks(b),
    ensures
        stream_chunks(Seq::empty(), a) == stream_chunks(Seq::empty(), b),
{
    lemma_streaming_equivalence(Seq::empty(), a);
    lemma_streaming_equivalence(Seq::empty(), b);
}

/// Stateful streaming decoder: accumulates bytes as they arrive from the
/// serial stream and decodes every complete frame on demand.
pub struct Pms5003Codec {
    buffer: Vec<u8>,
}

impl View for Pms5003Codec {
    type V = Seq<u8>;

    /// The bytes received and not yet consumed by a decode attempt.
    closed spec fn view(&self) -> Seq<u8> {
        self.buffer@
    }
}

impl Pms5003Codec {
    /// A decoder with an empty pending buffer.
    pub fn new() -> (c: Self)
        ensures
            c@ == Seq::<u8>::empty(),
    {
        Pms5003Codec { buffer: Vec::new() }
    }

    /// Appends one received byte to the pending buffer.
    pub fn push_byte(&mut self, byte: u8)
        ensures
            final(self)@ == old(self)@.push(byte),
    {
        self.buffer.push(byte);
    }

    /// Appends newly received bytes to the pending buffer.
    pub fn push_bytes(&mut self, data: &[u8])
        ensures
            final(self)@ == old(self)@ + data@,
    {
        let mut i: usize = 0;
        while i < data.len()
            invariant
                i <= data.len(),
                self.buffer@ == old(self).buffer@ + data@.subrange(0, i as int),
            decreases data.len() - i,
        {
            proof {
                assert(old(self).buffer@ + data@.subrange(0, i + 1) =~= (old(self).buffer@
                    + data@.subrange(0, i as int)).push(data@[i as int]));
            }
            self.buffer.push(data[i]);
            i = i + 1;
        }
        proof {
            assert(data@.subrange(0, data@.len() as int) =~= data@);
        }
    }

    /// Runs one decode attempt against the pending buffer, dropping the
    /// consumed bytes from its front.
    pub fn poll(&mut self) -> (ev: DecodeEvent)
        ensures
            ev == decode_event(old(self)@),
            final(self)@ == old(self)@.subrange(
                decode_consumed(old(self)@),
                old(self)@.len() as int,
            ),
    {
        proof {
            lemma_consumed_le_len(self.buffer@);
        }
        let step = decode_step(&self.buffer);
        if step.consumed > 0 {
            let mut rest: Vec<u8> = Vec::new();
            let mut i: usize = step.consumed;
            while i < self.buffer.len()
                invariant
                    step.consumed <= i <= self.buffer.len(),
                    self.buffer@ == old(self)@,
                    rest@ == self.buffer@.subrange(step.consumed as int, i as int),
                decreases self.buffer.len() - i,
            {
                proof {
                    assert(self.buffer@.subrange(step.consumed as int, i + 1)
                        =~= self.buffer@.subrange(step.consumed as int, i as int).push(
                        self.buffer@[i as int],
                    ));
                }
                rest.push(self.buffer[i]);
                i = i + 1;
            }
            self.buffer = rest;
        } else {
            proof {
                assert(old(self)@.subrange(0, old(self)@.len() as int) =~= old(self)@);
            }
        }
        step.event
    }

    /// Decodes every complete frame currently buffered, in order, leaving the
    /// buffer quiescent: the next decode attempt will wait for more input.
    pub fn drain_frames(&mut self) -> (frames: Vec<SensorFrame>)
        ensures
            frames@ == decode_stream(old(self)@),
            final(self)@ == residual(old(self)@),
            decode_consumed(final(self)@) == 0,
    {
        let ghost orig = self@;
        let mut frames: Vec<SensorFrame> = Vec::new();
        loop
            invariant
                decode_stream(orig) == frames@ + decode_stream(self@),
                residual(orig) == residual(self@),
            ensures
                decode_consumed(self@) == 0,
                decode_stream(orig) == frames@ + decode_stream(self@),
                residual(orig) == residual(self@),
            decreases self@.len(),
        {
            proof {
                lemma_consumed_le_len(self@);
            }
            let ghost pre = self@;
            let ev = self.poll();
            match ev {
                DecodeEvent::NeedMoreData => {
                    proof {
                        assert(pre.subrange(0, pre.len() as int) =~= pre);
                    }
                    break ;
                },
                DecodeEvent::FrameDecoded(f) => {
                    proof {
                        assert(frames@ + decode_stream(pre) =~= frames@.push(f) + decode_stream(
                            self@,
                        ));
                    }
                    frames.push(f);
                },
                _ => {},
            }
        }
        proof {
            assert(decode_stream(self@) == Seq::<SensorFrame>::empty());
            assert(frames@ + Seq::<SensorFrame>::empty() =~= frames@);
            assert(residual(self@) == self@);
        }
        frames
    }
}

} // verus!
