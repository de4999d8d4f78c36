use pms5003_exporter::codec::{decode_step, DecodeEvent, DecodeStep};
use pms5003_exporter::frame::SensorFrame;
use pms5003_exporter::stream::Pms5003Codec;

/// Builds one wire frame: markers, length 28, the thirteen 16-bit fields
/// (twelve data fields and the reserved field), and the checksum computed
/// over the first 30 bytes.
fn build_frame(fields: [u16; 13]) -> Vec<u8> {
    let mut out: Vec<u8> = vec![0x42, 0x4D, 0x00, 0x1C];
    for f in fields {
        out.push((f >> 8) as u8);
        out.push((f & 0xFF) as u8);
    }
    let sum: u16 = out.iter().map(|b| *b as u16).sum();
    out.push((sum >> 8) as u8);
    out.push((sum & 0xFF) as u8);
    out
}

fn example_fields() -> [u16; 13] {
    [150, 200, 250, 150, 200, 250, 10, 20, 30, 40, 50, 60, 0]
}

fn example_frame() -> SensorFrame {
    SensorFrame {
        pm1_0_standard: 150,
        pm2_5_standard: 200,
        pm10_standard: 250,
        pm1_0_atmospheric: 150,
        pm2_5_atmospheric: 200,
        pm10_atmospheric: 250,
        particles_gt_0_3um: 10,
        particles_gt_0_5um: 20,
        particles_gt_1_0um: 30,
        particles_gt_2_5um: 40,
        particles_gt_5_0um: 50,
        particles_gt_10um: 60,
    }
}

#[test]
fn end_to_end_example_frame() {
    let bytes = build_frame(example_fields());
    assert_eq!(bytes.len(), 32);
    assert_eq!(&bytes[0..4], &[0x42, 0x4D, 0x00, 0x1C]);
    // The checksum is independently confirmed equal to the sum of bytes 0..=29.
    let sum: u16 = bytes[..30].iter().map(|b| *b as u16).sum();
    assert_eq!((bytes[30] as u16) * 256 + bytes[31] as u16, sum);
    let step = decode_step(&bytes);
    assert_eq!(step, DecodeStep { consumed: 32, event: DecodeEvent::FrameDecoded(example_frame()) });
}

#[test]
fn well_formed_frame_consumes_whole_frame() {
    let bytes = build_frame([1, 2, 3, 4, 5, 6, 7, 8, 9, 10, 11, 12, 0]);
    let step = decode_step(&bytes);
    assert_eq!(step.consumed, 32);
    match step.event {
        DecodeEvent::FrameDecoded(f) => {
            assert_eq!(f.pm1_0_standard, 1);
            assert_eq!(f.pm2_5_standard, 2);
            assert_eq!(f.pm10_standard, 3);
            assert_eq!(f.pm1_0_atmospheric, 4);
            assert_eq!(f.pm2_5_atmospheric, 5);
            assert_eq!(f.pm10_atmospheric, 6);
            assert_eq!(f.particles_gt_0_3um, 7);
            assert_eq!(f.particles_gt_0_5um, 8);
            assert_eq!(f.particles_gt_1_0um, 9);
            assert_eq!(f.particles_gt_2_5um, 10);
            assert_eq!(f.particles_gt_5_0um, 11);
            assert_eq!(f.particles_gt_10um, 12);
        }
        other => panic!("expected a decoded frame, got {:?}", other),
    }
}

#[test]
fn largest_field_values_decode() {
    let bytes = build_frame([65535; 13]);
    let step = decode_step(&bytes);
    assert_eq!(step.consumed, 32);
    assert_eq!(step.event, DecodeEvent::FrameDecoded(SensorFrame {
        pm1_0_standard: 65535,
        pm2_5_standard: 65535,
        pm10_standard: 65535,
        pm1_0_atmospheric: 65535,
        pm2_5_atmospheric: 65535,
        pm10_atmospheric: 65535,
        particles_gt_0_3um: 65535,
        particles_gt_0_5um: 65535,
        particles_gt_1_0um: 65535,
        particles_gt_2_5um: 65535,
        particles_gt_5_0um: 65535,
        particles_gt_10um: 65535,
    }));
}

#[test]
fn corrupt_checksum_drops_only_the_markers() {
    let mut bytes = build_frame(example_fields());
    bytes[31] ^= 0xFF;
    let step = decode_step(&bytes);
    assert_eq!(step.event, DecodeEvent::ChecksumMismatch);
    // Only the two marker bytes go, not the whole buffered region.
    assert_eq!(step.consumed, 2);
}

#[test]
fn corrupt_frame_then_good_frame_resynchronizes() {
    let mut bytes = build_frame(example_fields());
    bytes[10] ^= 0x01; // corrupt a data byte so the checksum mismatches
    bytes.extend(build_frame(example_fields()));
    let mut codec = Pms5003Codec::new();
    codec.push_bytes(&bytes);
    let frames = codec.drain_frames();
    assert_eq!(frames, vec![example_frame()]);
}

#[test]
fn unsupported_length_resynchronizes_like_a_mismatch() {
    let mut bytes = build_frame(example_fields());
    bytes[3] = 0x1D; // declared length 29 instead of 28
    let step = decode_step(&bytes);
    assert_eq!(step.event, DecodeEvent::UnsupportedFrameLength);
    assert_eq!(step.consumed, 2);
}

#[test]
fn empty_buffer_waits_for_input() {
    let bytes: Vec<u8> = Vec::new();
    let step = decode_step(&bytes);
    assert_eq!(step, DecodeStep { consumed: 0, event: DecodeEvent::NeedMoreData });
}

#[test]
fn partial_frame_waits_for_input() {
    let bytes = build_frame(example_fields());
    for cut in [1, 2, 3, 4, 10, 31] {
        let prefix: Vec<u8> = bytes[..cut].to_vec();
        let step = decode_step(&prefix);
        assert_eq!(step, DecodeStep { consumed: 0, event: DecodeEvent::NeedMoreData });
    }
}

#[test]
fn garbage_without_markers_waits_for_input() {
    let bytes: Vec<u8> = vec![0x00, 0x17, 0x42, 0x42, 0x99, 0x4D, 0x4D];
    let step = decode_step(&bytes);
    assert_eq!(step, DecodeStep { consumed: 0, event: DecodeEvent::NeedMoreData });
}

#[test]
fn garbage_before_frame_is_consumed_with_it() {
    let mut bytes: Vec<u8> = vec![0x13, 0x37, 0x00];
    bytes.extend(build_frame(example_fields()));
    let step = decode_step(&bytes);
    assert_eq!(step.consumed, 35);
    assert_eq!(step.event, DecodeEvent::FrameDecoded(example_frame()));
}

#[test]
fn streaming_byte_by_byte_equals_all_at_once() {
    // Two good frames around a corrupt one, with a partial frame left over.
    let mut input = build_frame(example_fields());
    let mut corrupt = build_frame([9, 9, 9, 9, 9, 9, 9, 9, 9, 9, 9, 9, 0]);
    corrupt[30] ^= 0x40;
    input.extend(corrupt);
    input.extend(build_frame([1, 2, 3, 4, 5, 6, 7, 8, 9, 10, 11, 12, 0]));
    input.extend(&build_frame(example_fields())[..17]);

    let mut all_at_once = Pms5003Codec::new();
    all_at_once.push_bytes(&input);
    let frames_at_once = all_at_once.drain_frames();

    let mut byte_by_byte = Pms5003Codec::new();
    let mut frames_streamed: Vec<SensorFrame> = Vec::new();
    for b in &input {
        byte_by_byte.push_byte(*b);
        frames_streamed.extend(byte_by_byte.drain_frames());
    }

    assert_eq!(frames_streamed, frames_at_once);
    assert_eq!(frames_at_once.len(), 2);
}

#[test]
fn frame_split_across_reads_decodes_once_complete() {
    let bytes = build_frame(example_fields());
    let mut codec = Pms5003Codec::new();
    codec.push_bytes(&bytes[..20]);
    assert_eq!(codec.drain_frames(), vec![]);
    codec.push_bytes(&bytes[20..]);
    assert_eq!(codec.drain_frames(), vec![example_frame()]);
}

#[test]
fn back_to_back_frames_decode_in_order() {
    let mut bytes = build_frame([1, 1, 1, 1, 1, 1, 1, 1, 1, 1, 1, 1, 0]);
    bytes.extend(build_frame([2, 2, 2, 2, 2, 2, 2, 2, 2, 2, 2, 2, 0]));
    let mut codec = Pms5003Codec::new();
    codec.push_bytes(&bytes);
    let frames = codec.drain_frames();
    assert_eq!(frames.len(), 2);
    assert_eq!(frames[0].pm1_0_standard, 1);
    assert_eq!(frames[1].pm1_0_standard, 2);
}
