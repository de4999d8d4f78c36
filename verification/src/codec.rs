//! Streaming decoder for the sensor's binary frame protocol.
//!
//! The decoder is driven repeatedly against a growing byte buffer: each step
//! either waits for more input, emits one checksum-valid frame, or discards
//! the two start-marker bytes of a corrupt frame so that scanning resumes at
//! the next plausible frame boundary.

use vstd::prelude::*;

use crate::frame::SensorFrame;

verus! {

/// First start-marker byte of every frame.
pub const MARKER_0: u8 = 0x42;

/// Second start-marker byte of every frame.
pub const MARKER_1: u8 = 0x4D;

/// Declared payload length of the sensor's standard reading frame: the number
/// of bytes that follow the length field up to and including the checksum.
pub const EXPECTED_FRAME_LENGTH: u16 = 28;

/// Total size of a frame on the wire: two markers, the two-byte length field,
/// and the declared payload length.
pub const FRAME_TOTAL_LEN: usize = 32;

/// The value of a big-endian 16-bit field with high byte `hi` and low byte `lo`.
pub open spec fn be16(hi: u8, lo: u8) -> int {
    hi * 256 + lo
}

/// Whether the two start-marker bytes stand at index `k` of `b`.
pub open spec fn marker_at(b: Seq<u8>, k: int) -> bool {
    &&& 0 <= k
    &&& k + 1 < b.len()
    &&& b[k] == MARKER_0
    &&& b[k + 1] == MARKER_1
}

/// The least index `k >= i` at which the two start-marker bytes stand, if any.
pub open spec fn find_marker_from(b: Seq<u8>, i: int) -> Option<int>
    decreases b.len() - i,
{
    if i < 0 || i + 1 >= b.len() {
        None
    } else if b[i] == MARKER_0 && b[i + 1] == MARKER_1 {
        Some(i)
    } else {
        find_marker_from(b, i + 1)
    }
}

/// The least index at which the two start-marker bytes stand in `b`, if any.
pub open spec fn find_marker(b: Seq<u8>) -> Option<int> {
    find_marker_from(b, 0)
}

/// The sum of all bytes of `b`, as an unbounded integer.
pub open spec fn byte_sum(b: Seq<u8>) -> int
    decreases b.len(),
{
    if b.len() == 0 {
        0
    } else {
        byte_sum(b.drop_last()) + b.last()
    }
}

/// The checksum the sensor writes for the 30 bytes starting at `k`: their sum
/// truncated to 16 bits.
pub open spec fn checksum_at(b: Seq<u8>, k: int) -> int {
    byte_sum(b.subrange(k, k + 30)) % 0x10000
}

/// The big-endian 16-bit data field number `i` (zero-based) of the frame that
/// starts at index `k` of `b`.
pub open spec fn field_at(b: Seq<u8>, k: int, i: int) -> int {
    be16(b[k + 4 + 2 * i], b[k + 5 + 2 * i])
}

/// The twelve data fields of the frame that starts at index `k` of `b`, in
/// wire order (the thirteenth field is reserved and not retained).
pub open spec fn frame_at(b: Seq<u8>, k: int) -> SensorFrame {
    SensorFrame {
        pm1_0_standard: field_at(b, k, 0) as u16,
        pm2_5_standard: field_at(b, k, 1) as u16,
        pm10_standard: field_at(b, k, 2) as u16,
        pm1_0_atmospheric: field_at(b, k, 3) as u16,
        pm2_5_atmospheric: field_at(b, k, 4) as u16,
        pm10_atmospheric: field_at(b, k, 5) as u16,
        particles_gt_0_3um: field_at(b, k, 6) as u16,
        particles_gt_0_5um: field_at(b, k, 7) as u16,
        particles_gt_1_0um: field_at(b, k, 8) as u16,
        particles_gt_2_5um: field_at(b, k, 9) as u16,
        particles_gt_5_0um: field_at(b, k, 10) as u16,
        particles_gt_10um: field_at(b, k, 11) as u16,
    }
}

/// What one decode attempt reports besides the number of consumed bytes.
#[derive(Clone, Copy, Debug, PartialEq, Eq, Structural)]
pub enum DecodeEvent {
    /// No complete frame is buffered yet; nothing was consumed. Not an error.
    NeedMoreData,
    /// A checksum-valid frame was decoded and its bytes consumed.
    FrameDecoded(SensorFrame),
    /// A frame's checksum did not match; only its two marker bytes were
    /// consumed, to resynchronize at the next scan.
    ChecksumMismatch,
    /// A frame declared a length other than the expected one; handled like a
    /// checksum mismatch.
    UnsupportedFrameLength,
}

/// What one decode attempt against buffer `b` reports.
pub open spec fn decode_event(b: Seq<u8>) -> DecodeEvent {
    match find_marker(b) {
        Option::None => DecodeEvent::NeedMoreData,
        Option::Some(k) => {
            if b.len() < k + 4 {
                DecodeEvent::NeedMoreData
            } else if be16(b[k + 2], b[k + 3]) != EXPECTED_FRAME_LENGTH {
                DecodeEvent::UnsupportedFrameLength
            } else if b.len() < k + FRAME_TOTAL_LEN {
                DecodeEvent::NeedMoreData
            } else if checksum_at(b, k) != be16(b[k + 30], b[k + 31]) {
                DecodeEvent::ChecksumMismatch
            } else {
                DecodeEvent::FrameDecoded(frame_at(b, k))
            }
        },
    }
}

/// How many leading bytes of `b` one decode attempt consumes: everything up
/// to and including a decoded frame, the scan position plus the two marker
/// bytes of a corrupt frame, and nothing while more input is awaited.
pub open spec fn decode_consumed(b: Seq<u8>) -> int {
    match find_marker(b) {
        Option::None => 0,
        Option::Some(k) => match decode_event(b) {
            DecodeEvent::NeedMoreData => 0,
            DecodeEvent::FrameDecoded(_) => k + FRAME_TOTAL_LEN,
            DecodeEvent::ChecksumMismatch => k + 2,
            DecodeEvent::UnsupportedFrameLength => k + 2,
        },
    }
}

/// The result of one decode attempt: how many leading buffer bytes to drop,
/// and what happened.
#[derive(Clone, Copy, Debug, PartialEq, Eq, Structural)]
pub struct DecodeStep {
    pub consumed: usize,
    pub event: DecodeEvent,
}

/// One decode attempt never consumes more bytes than are buffered, and it
/// consumes some whenever it does not wait for more input.
pub proof fn lemma_consumed_le_len(b: Seq<u8>)
    ensures
        0 <= decode_consumed(b) <= b.len(),
        decode_event(b) is NeedMoreData <==> decode_consumed(b) == 0,
{
    if find_marker(b) is Some {
        let k = find_marker(b)->0;
        lemma_find_marker_from_bounds(b, 0);
    }
}

/// A found marker index lies within the buffer, with one byte after it.
pub proof fn lemma_find_marker_from_bounds(b: Seq<u8>, i: int)
    ensures
        find_marker_from(b, i) is Some ==> marker_at(b, find_marker_from(b, i)->0)
            && i <= find_marker_from(b, i)->0,
    decreases b.len() - i,
{
    if !(i < 0 || i + 1 >= b.len()) && !(b[i] == MARKER_0 && b[i + 1] == MARKER_1) {
        lemma_find_marker_from_bounds(b, i + 1);
    }
}

/// Whether a well-formed frame stands at index `k` of `b`: both markers, the
/// expected declared length, and a checksum that matches the byte sum.
pub open spec fn well_formed_frame_at(b: Seq<u8>, k: int) -> bool {
    &&& marker_at(b, k)
    &&& k + FRAME_TOTAL_LEN <= b.len()
    &&& be16(b[k + 2], b[k + 3]) == EXPECTED_FRAME_LENGTH
    &&& checksum_at(b, k) == be16(b[k + 30], b[k + 31])
}

/// A buffer that begins with a well-formed frame decodes to exactly the
/// twelve data fields in wire order, and the whole frame is consumed.
pub proof fn lemma_decodes_well_formed_frame(b: Seq<u8>)
    requires
        well_formed_frame_at(b, 0),
    ensures
        decode_event(b) == DecodeEvent::FrameDecoded(frame_at(b, 0)),
        decode_consumed(b) == FRAME_TOTAL_LEN,
{
}

/// A buffer that begins with a frame of the expected length whose checksum
/// does not match yields no frame, and resynchronization drops only the two
/// marker bytes, not the whole buffered region.
pub proof fn lemma_corrupt_checksum_resyncs(b: Seq<u8>)
    requires
        marker_at(b, 0),
        b.len() >= FRAME_TOTAL_LEN,
        be16(b[2], b[3]) == EXPECTED_FRAME_LENGTH,
        checksum_at(b, 0) != be16(b[30], b[31]),
    ensures
        decode_event(b) == DecodeEvent::ChecksumMismatch,
        decode_consumed(b) == 2,
{
}

/// Corrupting either checksum byte of a well-formed frame makes the decoder
/// report a mismatch — no frame is produced — and resynchronize by dropping
/// only the two marker bytes.
pub proof fn lemma_corrupted_checksum_byte_rejected(b: Seq<u8>, i: int, v: u8)
    requires
        well_formed_frame_at(b, 0),
        i == 30 || i == 31,
        v != b[i],
    ensures
        decode_event(b.update(i, v)) == DecodeEvent::ChecksumMismatch,
        decode_consumed(b.update(i, v)) == 2,
{
    let c = b.update(i, v);
    assert(c.subrange(0, 30) =~= b.subrange(0, 30));
    assert(be16(c[30], c[31]) != be16(b[30], b[31]));
    lemma_corrupt_checksum_resyncs(c);
}

/// Reads the big-endian 16-bit field at byte index `i` of `buf`.
fn read_be16(buf: &Vec<u8>, i: usize) -> (r: u16)
    requires
        i + 1 < buf.len(),
    ensures
        r as int == be16(buf@[i as int], buf@[i as int + 1]),
{
    (buf[i] as u16) * 256 + (buf[i + 1] as u16)
}

/// Runs one decode attempt against the leading bytes of `buf`.
///
/// Reports what the attempt found and how many leading bytes of `buf` the
/// caller must drop before the next attempt, exactly as `decode_event` and
/// `decode_consumed` describe.
pub fn decode_step(buf: &Vec<u8>) -> (r: DecodeStep)
    ensures
        r.event == decode_event(buf@),
        r.consumed as int == decode_consumed(buf@),
        r.consumed <= buf.len(),
{
    proof {
        lemma_consumed_le_len(buf@);
    }
    let mut i: usize = 0;
    let mut found: Option<usize> = None;
    while i + 1 < buf.len()
        invariant_except_break
            i == 0 || i < buf.len(),
            found is None,
            find_marker(buf@) == find_marker_from(buf@, i as int),
        ensures
            found is Some ==> marker_at(buf@, found->0 as int) && find_marker(buf@) == Some(
                found->0 as int,
            ),
            found is None ==> find_marker(buf@) is None,
        decreases buf.len() - i,
    {
        if buf[i] == MARKER_0 && buf[i + 1] == MARKER_1 {
            found = Some(i);
            break ;
        }
        i = i + 1;
    }
    let k = match found {
        Some(k) => k,
        None => {
            assert(find_marker(buf@) is None);
            return DecodeStep { consumed: 0, event: DecodeEvent::NeedMoreData };
        },
    };
    if buf.len() - k < 4 {
        return DecodeStep { consumed: 0, event: DecodeEvent::NeedMoreData };
    }
    let declared_len = read_be16(buf, k + 2);
    if declared_len != EXPECTED_FRAME_LENGTH {
        return DecodeStep { consumed: k + 2, event: DecodeEvent::UnsupportedFrameLength };
    }
    if buf.len() - k < FRAME_TOTAL_LEN {
        return DecodeStep { consumed: 0, event: DecodeEvent::NeedMoreData };
    }
    let mut sum: u16 = 0;
    let mut j: usize = k;
    while j < k + 30
        invariant
            k <= j <= k + 30,
            k + FRAME_TOTAL_LEN <= buf.len(),
            sum as int == byte_sum(buf@.subrange(k as int, j as int)),
            sum <= 255 * (j - k),
        decreases k + 30 - j,
    {
        proof {
            assert(buf@.subrange(k as int, j + 1).drop_last() =~= buf@.subrange(
                k as int,
                j as int,
            ));
            assert(buf@.subrange(k as int, j + 1).last() == buf@[j as int]);
        }
        sum = sum + (buf[j] as u16);
        j = j + 1;
    }
    assert(checksum_at(buf@, k as int) == sum as int) by {
        assert(byte_sum(buf@.subrange(k as int, k + 30)) == sum as int);
    }
    let expected = read_be16(buf, k + 30);
    if sum != expected {
        return DecodeStep { consumed: k + 2, event: DecodeEvent::ChecksumMismatch };
    }
    let frame = SensorFrame {
        pm1_0_standard: read_be16(buf, k + 4),
        pm2_5_standard: read_be16(buf, k + 6),
        pm10_standard: read_be16(buf, k + 8),
        pm1_0_atmospheric: read_be16(buf, k + 10),
        pm2_5_atmospheric: read_be16(buf, k + 12),
        pm10_atmospheric: read_be16(buf, k + 14),
        particles_gt_0_3um: read_be16(buf, k + 16),
        particles_gt_0_5um: read_be16(buf, k + 18),
        particles_gt_1_0um: read_be16(buf, k + 20),
        particles_gt_2_5um: read_be16(buf, k + 22),
        particles_gt_5_0um: read_be16(buf, k + 24),
        particles_gt_10um: read_be16(buf, k + 26),
    };
    assert(frame == frame_at(buf@, k as int));
    DecodeStep { consumed: k + FRAME_TOTAL_LEN, event: DecodeEvent::FrameDecoded(frame) }
}

} // verus!
