use blerp::block::Block;
use blerp::sample::{Sample, SampleKind};
use blerp::wavefile::{Format, WaveFile, WaveFileWriteError};

fn u16_at(b: &[u8], at: usize) -> u16 {
    u16::from_le_bytes([b[at], b[at + 1]])
}

fn u32_at(b: &[u8], at: usize) -> u32 {
    u32::from_le_bytes([b[at], b[at + 1], b[at + 2], b[at + 3]])
}

const DATA: [u8; 4] = [0x00, 0x01, 0xFF, 0x7F];

#[test]
fn pcm_header_fields() {
    let w = WaveFile::from_raw_data(&DATA, Format::PulseCodeModulation, 1, 44100, 2);
    let mut out = Vec::new();
    w.write(&mut out).unwrap();
    let mut expected = Vec::new();
    expected.extend_from_slice(b"RIFF");
    expected.extend_from_slice(&40u32.to_le_bytes());
    expected.extend_from_slice(b"WAVEfmt ");
    expected.extend_from_slice(&16u32.to_le_bytes());
    expected.extend_from_slice(&1u16.to_le_bytes());
    expected.extend_from_slice(&1u16.to_le_bytes());
    expected.extend_from_slice(&44100u32.to_le_bytes());
    expected.extend_from_slice(&88200u32.to_le_bytes());
    expected.extend_from_slice(&2u16.to_le_bytes());
    expected.extend_from_slice(&16u16.to_le_bytes());
    expected.extend_from_slice(b"data");
    expected.extend_from_slice(&4u32.to_le_bytes());
    expected.extend_from_slice(&DATA);
    assert_eq!(out, expected);
}

#[test]
fn float_header_fields() {
    let w = WaveFile::from_raw_data(&DATA, Format::FloatingPoint, 1, 44100, 2);
    let mut out = Vec::new();
    w.write(&mut out).unwrap();
    let mut expected = Vec::new();
    expected.extend_from_slice(b"RIFF");
    expected.extend_from_slice(&54u32.to_le_bytes());
    expected.extend_from_slice(b"WAVEfmt ");
    expected.extend_from_slice(&18u32.to_le_bytes());
    expected.extend_from_slice(&3u16.to_le_bytes());
    expected.extend_from_slice(&1u16.to_le_bytes());
    expected.extend_from_slice(&44100u32.to_le_bytes());
    expected.extend_from_slice(&88200u32.to_le_bytes());
    expected.extend_from_slice(&2u16.to_le_bytes());
    expected.extend_from_slice(&16u16.to_le_bytes());
    expected.extend_from_slice(&0u16.to_le_bytes());
    expected.extend_from_slice(b"fact");
    expected.extend_from_slice(&4u32.to_le_bytes());
    expected.extend_from_slice(&2u32.to_le_bytes());
    expected.extend_from_slice(b"data");
    expected.extend_from_slice(&4u32.to_le_bytes());
    expected.extend_from_slice(&DATA);
    assert_eq!(out, expected);
}

#[test]
fn write_appends_after_existing_bytes() {
    let w = WaveFile::from_raw_data(&DATA, Format::PulseCodeModulation, 1, 8000, 2);
    let mut out = vec![9u8, 9u8];
    w.write(&mut out).unwrap();
    assert_eq!(&out[..2], &[9u8, 9u8]);
    assert_eq!(&out[2..6], b"RIFF");
    assert_eq!(out.len(), 2 + 44 + 4);
}

#[test]
fn block_field_is_bytes_per_sample_alone() {
    let w = WaveFile::from_raw_data(&[0u8; 8], Format::PulseCodeModulation, 2, 48000, 2);
    let mut out = Vec::new();
    w.write(&mut out).unwrap();
    assert_eq!(u16_at(&out, 22), 2);
    assert_eq!(u32_at(&out, 28), 48000 * 2 * 2);
    assert_eq!(u16_at(&out, 32), 2);
    assert_eq!(u16_at(&out, 34), 16);
}

#[test]
fn byte_rate_keeps_low_bytes() {
    let w = WaveFile::from_raw_data(&[], Format::PulseCodeModulation, 0xffff, 0xffff_ffff, 0xffff);
    let mut out = Vec::new();
    w.write(&mut out).unwrap();
    let full: u128 = 0xffff_ffff_u128 * 0xffff * 0xffff;
    assert_eq!(u32_at(&out, 28), (full % (1u128 << 32)) as u32);
    assert_eq!(u16_at(&out, 34), 0xffff_u16.wrapping_mul(8));
}

#[test]
fn from_raw_data_keeps_fields() {
    let w = WaveFile::from_raw_data(&DATA, Format::FloatingPoint, 3, 22050, 4);
    assert_eq!(w.format, Format::FloatingPoint);
    assert_eq!(w.channels, 3);
    assert_eq!(w.sample_rate, 22050);
    assert_eq!(w.bytes_per_sample, 4);
    assert_eq!(w.data, DATA.to_vec());
}

#[test]
fn from_samples_encodes_little_endian() {
    let frames = vec![Block([Sample::I16(256)]), Block([Sample::I16(32767)])];
    let w = WaveFile::from_samples(&frames, SampleKind::I16, 44100).unwrap();
    assert_eq!(w.format, Format::PulseCodeModulation);
    assert_eq!(w.channels, 1);
    assert_eq!(w.sample_rate, 44100);
    assert_eq!(w.bytes_per_sample, 2);
    assert_eq!(w.data, DATA.to_vec());
}

#[test]
fn from_samples_remaps_unsigned_and_interleaves() {
    let frames = vec![
        Block([Sample::U16(0), Sample::U16(65535)]),
        Block([Sample::U16(32768), Sample::U16(1)]),
    ];
    let w = WaveFile::from_samples(&frames, SampleKind::U16, 8000).unwrap();
    assert_eq!(w.channels, 2);
    assert_eq!(w.data, vec![0x00, 0x80, 0xFF, 0x7F, 0x00, 0x00, 0x01, 0x80]);
}

#[test]
fn from_samples_keeps_unsigned_bytes() {
    let frames = vec![Block([Sample::U8(200)]), Block([Sample::U8(0)])];
    let w = WaveFile::from_samples(&frames, SampleKind::U8, 8000).unwrap();
    assert_eq!(w.bytes_per_sample, 1);
    assert_eq!(w.data, vec![200, 0]);
}

#[test]
fn from_samples_packs_24_and_48_bits() {
    let frames = vec![Block([Sample::I24(-2)]), Block([Sample::I24(0x12_3456)])];
    let w = WaveFile::from_samples(&frames, SampleKind::I24, 8000).unwrap();
    assert_eq!(w.bytes_per_sample, 3);
    assert_eq!(w.data, vec![0xFE, 0xFF, 0xFF, 0x56, 0x34, 0x12]);
    let frames = vec![Block([Sample::U48(1)])];
    let w = WaveFile::from_samples(&frames, SampleKind::U48, 8000).unwrap();
    assert_eq!(w.bytes_per_sample, 6);
    assert_eq!(w.data, vec![0x01, 0x00, 0x00, 0x00, 0x00, 0x80]);
}

#[test]
fn zero_channels_is_absent() {
    let frames: Vec<Block<0>> = vec![Block([]), Block([])];
    assert!(WaveFile::from_samples(&frames, SampleKind::I16, 44100).is_none());
}

#[test]
fn largest_channel_count_succeeds() {
    let frames: Vec<Block<65535>> = Vec::new();
    let w = WaveFile::from_samples(&frames, SampleKind::I16, 44100).unwrap();
    assert_eq!(w.channels, 65535);
    assert!(w.data.is_empty());
}

#[test]
fn too_many_channels_is_absent() {
    let frames: Vec<Block<65536>> = Vec::new();
    assert!(WaveFile::from_samples(&frames, SampleKind::I16, 44100).is_none());
}

#[test]
fn round_trip_through_write() {
    let frames = vec![
        Block([Sample::I32(-1), Sample::I32(7), Sample::I32(i32::MAX)]),
        Block([Sample::I32(0), Sample::I32(i32::MIN), Sample::I32(3)]),
    ];
    let w = WaveFile::from_samples(&frames, SampleKind::I32, 96000).unwrap();
    let mut out = Vec::new();
    w.write(&mut out).unwrap();
    assert_eq!(&out[0..4], b"RIFF");
    assert_eq!(u16_at(&out, 20), 1);
    assert_eq!(u16_at(&out, 22), 3);
    assert_eq!(u32_at(&out, 24), 96000);
    assert_eq!(u16_at(&out, 32), 4);
    assert_eq!(&out[36..40], b"data");
    assert_eq!(u32_at(&out, 40) as usize, w.data.len());
    assert_eq!(&out[44..], &w.data[..]);
    assert_eq!(w.data.len(), 24);
}

#[test]
fn round_trip_float_layout() {
    let w = WaveFile::from_raw_data(&[1, 2, 3, 4, 5, 6, 7, 8], Format::FloatingPoint, 2, 44100, 4);
    let mut out = Vec::new();
    w.write(&mut out).unwrap();
    assert_eq!(u16_at(&out, 20), 3);
    assert_eq!(u16_at(&out, 22), 2);
    assert_eq!(u32_at(&out, 46), 2);
    assert_eq!(&out[50..54], b"data");
    assert_eq!(u32_at(&out, 54), 8);
    assert_eq!(&out[58..], &[1, 2, 3, 4, 5, 6, 7, 8]);
}

#[test]
fn write_error_variants_are_distinct() {
    let e = WaveFileWriteError::DataTooLong;
    assert!(matches!(e, WaveFileWriteError::DataTooLong));
    let io = WaveFileWriteError::Io(std::io::Error::other("sink closed"));
    assert!(matches!(io, WaveFileWriteError::Io(_)));
}

#[test]
fn from_encoded_checks_channel_count() {
    let bytes = 0.5f32.to_le_bytes().to_vec();
    let w = WaveFile::from_encoded(bytes.clone(), Format::FloatingPoint, 1, 48000, 4).unwrap();
    assert_eq!(w.format, Format::FloatingPoint);
    assert_eq!(w.channels, 1);
    assert_eq!(w.bytes_per_sample, 4);
    assert_eq!(w.data, bytes);
    assert!(WaveFile::from_encoded(Vec::new(), Format::FloatingPoint, 0, 48000, 4).is_none());
    assert!(WaveFile::from_encoded(Vec::new(), Format::FloatingPoint, 65535, 48000, 4).is_some());
    assert!(WaveFile::from_encoded(Vec::new(), Format::FloatingPoint, 65536, 48000, 4).is_none());
}
