use sonata_audio::sample::{convert_sample, i24, u24};
use sonata_audio::signal::{Channels, Layout, SignalSpec};

#[test]
fn channel_mask_counts_set_bits() {
    assert_eq!(Channels::empty().len(), 0);
    assert_eq!(Channels::new(0b1).len(), 1);
    assert_eq!(Channels::new(0b1011).len(), 3);
    assert_eq!(Channels::new(u32::MAX).len(), 32);
}

#[test]
fn layouts_expand_to_canonical_masks() {
    assert_eq!(Layout::Mono.into_channels().bits, 0x1);
    assert_eq!(Layout::Stereo.into_channels().bits, 0x3);
    assert_eq!(Layout::TwoPointOne.into_channels().bits, 0x43);
    assert_eq!(Layout::FivePointOne.into_channels().bits, 0x6F);
    assert_eq!(Layout::Mono.into_channels().len(), 1);
    assert_eq!(Layout::Stereo.into_channels().len(), 2);
    assert_eq!(Layout::TwoPointOne.into_channels().len(), 3);
    assert_eq!(Layout::FivePointOne.into_channels().len(), 6);
}

#[test]
fn signal_spec_construction() {
    let a = SignalSpec::new(48000, Channels::new(0x3));
    let b = SignalSpec::new_with_layout(48000, Layout::Stereo);
    assert_eq!(a, b);
    assert_eq!(a.rate, 48000);
    assert_eq!(a.channels.len(), 2);
}

#[test]
fn twenty_four_bit_values() {
    assert_eq!(u24::new(0).value(), 0);
    assert_eq!(u24::new(0x123456).value(), 0x123456);
    assert_eq!(u24::new(0xFFFFFF).value(), 0xFFFFFF);
    assert_eq!(i24::new(0).value(), 0);
    assert_eq!(i24::new(-1).value(), -1);
    assert_eq!(i24::new(-0x800000).value(), -0x800000);
    assert_eq!(i24::new(0x7FFFFF).value(), 0x7FFFFF);
}

#[test]
fn widening_conversions_rescale() {
    // Integer conversions rescale by the bit-width ratio.
    assert_eq!(convert_sample::<i16, i32>(0), 0);
    assert_eq!(convert_sample::<i16, i32>(1), 65536);
    assert_eq!(convert_sample::<i16, i32>(-32768), i32::MIN);
    assert_eq!(convert_sample::<i16, i32>(32767), 0x7FFF0000);
    assert_eq!(convert_sample::<u8, i16>(0), -32768);
    assert_eq!(convert_sample::<u8, i16>(128), 0);
    assert_eq!(convert_sample::<i8, u8>(-128), 0);
    assert_eq!(convert_sample::<i8, u8>(127), 255);
    assert_eq!(convert_sample::<i24, i32>(i24::new(-1)), -256);
    assert_eq!(convert_sample::<u24, u32>(u24::new(1)), 256);
}

#[test]
fn narrowing_conversions_truncate() {
    assert_eq!(convert_sample::<i32, i16>(65536), 1);
    assert_eq!(convert_sample::<i32, i16>(65537), 1);
    assert_eq!(convert_sample::<i32, i16>(-1), -1);
    assert_eq!(convert_sample::<u16, u8>(0x1234), 0x12);
    assert_eq!(convert_sample::<i32, u8>(i32::MIN), 0);
    assert_eq!(convert_sample::<i32, u8>(i32::MAX), 255);
}

#[test]
fn lossless_round_trips() {
    // Widening then narrowing through an at-least-as-wide kind reproduces
    // the original sample exactly, for every kind pair tried.
    for x in [-32768i16, -1, 0, 1, 32767] {
        assert_eq!(convert_sample::<i32, i16>(convert_sample::<i16, i32>(x)), x);
        assert_eq!(convert_sample::<u32, i16>(convert_sample::<i16, u32>(x)), x);
    }
    for x in [0u8, 1, 127, 128, 255] {
        assert_eq!(convert_sample::<i16, u8>(convert_sample::<u8, i16>(x)), x);
        assert_eq!(convert_sample::<i32, u8>(convert_sample::<u8, i32>(x)), x);
    }
    for v in [-0x800000i32, -1, 0, 1, 0x7FFFFF] {
        let x = i24::new(v);
        assert_eq!(convert_sample::<i32, i24>(convert_sample::<i24, i32>(x)), x);
        assert_eq!(convert_sample::<u32, i24>(convert_sample::<i24, u32>(x)), x);
    }
}

#[test]
fn same_kind_conversion_is_identity() {
    for x in [i32::MIN, -1, 0, 1, i32::MAX] {
        assert_eq!(convert_sample::<i32, i32>(x), x);
    }
}
