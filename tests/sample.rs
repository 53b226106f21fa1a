use blerp::block::silence;
use blerp::sample::{clip, le_bytes_of, scale, Sample, SampleKind};

#[test]
fn clip_clamps_both_sides() {
    assert_eq!(clip(Sample::I16(-500), Sample::I16(100)), Sample::I16(-100));
    assert_eq!(clip(Sample::I16(500), Sample::I16(100)), Sample::I16(100));
    assert_eq!(clip(Sample::I16(42), Sample::I16(100)), Sample::I16(42));
    assert_eq!(clip(Sample::I8(-128), Sample::I8(127)), Sample::I8(-127));
    assert_eq!(clip(Sample::U8(200), Sample::U8(100)), Sample::U8(100));
    assert_eq!(clip(Sample::I24(-0x80_0000), Sample::I24(0)), Sample::I24(0));
}

#[test]
fn clip_is_idempotent() {
    let t = Sample::I32(1000);
    for s in [Sample::I32(i32::MIN), Sample::I32(-1000), Sample::I32(5), Sample::I32(i32::MAX)] {
        let once = clip(s, t);
        assert_eq!(clip(once, t), once);
        let v = once.to_i128();
        assert!((-1000..=1000).contains(&v));
    }
}

#[test]
fn scale_wraps() {
    assert_eq!(scale(Sample::I16(300), Sample::I16(2)), Sample::I16(600));
    assert_eq!(scale(Sample::I8(100), Sample::I8(3)), Sample::I8(44));
    assert_eq!(scale(Sample::U8(200), Sample::U8(2)), Sample::U8(144));
    assert_eq!(scale(Sample::I24(0x40_0000), Sample::I24(2)), Sample::I24(-0x80_0000));
    assert_eq!(scale(Sample::U64(u64::MAX), Sample::U64(u64::MAX)), Sample::U64(1));
    assert_eq!(scale(Sample::I64(i64::MIN), Sample::I64(-1)), Sample::I64(i64::MIN));
}

#[test]
fn scale_composes() {
    let s = Sample::I16(1234);
    let m1 = Sample::I16(-77);
    let m2 = Sample::I16(901);
    assert_eq!(scale(scale(s, m1), m2), scale(s, scale(m1, m2)));
    let s = Sample::U48(0xABCD_EF01_2345);
    let m1 = Sample::U48(0xFFFF_0000_1111);
    let m2 = Sample::U48(3);
    assert_eq!(scale(scale(s, m1), m2), scale(s, scale(m1, m2)));
}

#[test]
fn silence_is_equilibrium() {
    let b = silence::<3>(SampleKind::U16);
    assert_eq!(b.0, [Sample::U16(32768); 3]);
    let b = silence::<2>(SampleKind::I32);
    assert_eq!(b.0, [Sample::I32(0); 2]);
    let b = silence::<1>(SampleKind::U8);
    assert_eq!(b.0, [Sample::U8(128)]);
    let b = silence::<0>(SampleKind::I8);
    assert_eq!(b.0.len(), 0);
}

#[test]
fn equilibrium_of_each_kind() {
    assert_eq!(SampleKind::U24.equilibrium(), Sample::U24(0x80_0000));
    assert_eq!(SampleKind::U64.equilibrium(), Sample::U64(1 << 63));
    assert_eq!(SampleKind::I48.equilibrium(), Sample::I48(0));
}

#[test]
fn wav_sample_remaps_wide_unsigned() {
    assert_eq!(Sample::U16(0).to_wav_sample(), Sample::I16(-32768));
    assert_eq!(Sample::U32(u32::MAX).to_wav_sample(), Sample::I32(i32::MAX));
    assert_eq!(Sample::U24(0x80_0000).to_wav_sample(), Sample::I24(0));
    assert_eq!(Sample::U64(0).to_wav_sample(), Sample::I64(i64::MIN));
    assert_eq!(Sample::U8(7).to_wav_sample(), Sample::U8(7));
    assert_eq!(Sample::I16(-3).to_wav_sample(), Sample::I16(-3));
}

#[test]
fn widths_and_formats() {
    assert_eq!(SampleKind::I8.bytes_per_sample(), 1);
    assert_eq!(SampleKind::U24.bytes_per_sample(), 3);
    assert_eq!(SampleKind::I48.bytes_per_sample(), 6);
    assert_eq!(SampleKind::U64.bytes_per_sample(), 8);
    assert_eq!(SampleKind::I16.sample_format(), blerp::wavefile::Format::PulseCodeModulation);
}

#[test]
fn little_endian_bytes() {
    assert_eq!(Sample::I16(-2).to_le_bytes(), vec![0xFE, 0xFF]);
    assert_eq!(Sample::U32(0x0102_0304).to_le_bytes(), vec![4, 3, 2, 1]);
    assert_eq!(Sample::I48(-1).to_le_bytes(), vec![0xFF; 6]);
    assert_eq!(le_bytes_of(0x0A0B_0C0D, 3), vec![0x0D, 0x0C, 0x0B]);
    assert_eq!(Sample::U16(0).wav_bytes(), vec![0x00, 0x80]);
}
