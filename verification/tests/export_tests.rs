use sonata_audio::buffer::{AsAudioBufferRef, AudioBuffer};
use sonata_audio::sample::{u24, Dither};
use sonata_audio::sample_buffer::SampleBuffer;
use sonata_audio::signal::{Channels, Duration, Layout, SignalSpec};

fn le16(samples: &[i16]) -> Vec<u8> {
    samples.iter().flat_map(|s| s.to_le_bytes()).collect()
}

fn le32(samples: &[i32]) -> Vec<u8> {
    samples.iter().flat_map(|s| s.to_le_bytes()).collect()
}

#[test]
fn planar_copy_densifies() {
    // capacity = 10, frames = 3, channels = 2: copy_planar yields exactly
    // 6 samples laid out channel-block by channel-block, with the padding
    // between the source's planes removed.
    let spec = SignalSpec::new_with_layout(44100, Layout::Stereo);
    let mut src = AudioBuffer::<i16>::new(Duration::Frames(10), &spec);
    let r: Result<(), ()> = src.render(Some(3), |i| Ok(vec![i as i16 + 1, i as i16 + 4]));
    assert!(r.is_ok());
    let mut dst = SampleBuffer::<i16>::new(Duration::Frames(10), &spec);
    assert_eq!(dst.capacity(), 20);
    dst.copy_planar(&src);
    assert_eq!(dst.samples(), 6);
    assert_eq!(dst.as_bytes(), le16(&[1, 2, 3, 4, 5, 6]).as_slice());
}

#[test]
fn interleaved_copy_scenario() {
    // Stereo at 44100 Hz, 4 frames rendered as (i, i + 100) per frame:
    // the interleaved byte stream is [0, 100, 1, 101, 2, 102, 3, 103].
    let spec = SignalSpec::new_with_layout(44100, Layout::Stereo);
    let mut src = AudioBuffer::<i32>::new(Duration::Frames(4), &spec);
    let r: Result<(), ()> = src.render(None, |i| Ok(vec![i as i32, i as i32 + 100]));
    assert!(r.is_ok());
    let mut dst = SampleBuffer::<i32>::new(Duration::Frames(4), &spec);
    dst.copy_interleaved(&src);
    assert_eq!(dst.samples(), 8);
    assert_eq!(dst.as_bytes(), le32(&[0, 100, 1, 101, 2, 102, 3, 103]).as_slice());
}

#[test]
fn interleave_specialized_matches_general_mono() {
    let spec = SignalSpec::new_with_layout(22050, Layout::Mono);
    let mut src = AudioBuffer::<i16>::new(Duration::Frames(5), &spec);
    let r: Result<(), ()> = src.render(Some(4), |i| Ok(vec![(i as i16) * 3 - 5]));
    assert!(r.is_ok());
    let mut fast = SampleBuffer::<i16>::new(Duration::Frames(5), &spec);
    let mut general = SampleBuffer::<i16>::new(Duration::Frames(5), &spec);
    fast.copy_interleaved_typed(&src, Dither::NoOp);
    general.copy_interleaved_general(&src, Dither::NoOp);
    assert_eq!(fast.samples(), general.samples());
    assert_eq!(fast.as_bytes(), general.as_bytes());
}

#[test]
fn interleave_specialized_matches_general_stereo() {
    let spec = SignalSpec::new_with_layout(44100, Layout::Stereo);
    let mut src = AudioBuffer::<i32>::new(Duration::Frames(6), &spec);
    let r: Result<(), ()> = src.render(Some(5), |i| Ok(vec![i as i32 * 7, -(i as i32) * 11]));
    assert!(r.is_ok());
    let mut fast = SampleBuffer::<i32>::new(Duration::Frames(6), &spec);
    let mut general = SampleBuffer::<i32>::new(Duration::Frames(6), &spec);
    fast.copy_interleaved_typed(&src, Dither::NoOp);
    general.copy_interleaved_general(&src, Dither::NoOp);
    assert_eq!(fast.samples(), general.samples());
    assert_eq!(fast.as_bytes(), general.as_bytes());
}

#[test]
fn interleaved_copy_three_channels() {
    let spec = SignalSpec::new_with_layout(48000, Layout::TwoPointOne);
    let mut src = AudioBuffer::<i16>::new(Duration::Frames(3), &spec);
    let r: Result<(), ()> =
        src.render(Some(2), |i| Ok(vec![i as i16, 10 + i as i16, 20 + i as i16]));
    assert!(r.is_ok());
    let mut dst = SampleBuffer::<i16>::new(Duration::Frames(3), &spec);
    dst.copy_interleaved(&src);
    assert_eq!(dst.samples(), 6);
    assert_eq!(dst.as_bytes(), le16(&[0, 10, 20, 1, 11, 21]).as_slice());
}

#[test]
fn copy_with_no_channels_writes_nothing() {
    let spec = SignalSpec::new(8000, Channels::empty());
    let src = AudioBuffer::<i16>::new(Duration::Frames(4), &spec);
    let mut dst = SampleBuffer::<i16>::new(Duration::Frames(4), &spec);
    dst.copy_interleaved(&src);
    assert_eq!(dst.samples(), 0);
    assert_eq!(dst.as_bytes(), &[] as &[u8]);
}

#[test]
fn typed_copy_converts_inline() {
    // A 32-bit source exported through a 16-bit sample buffer is rescaled
    // sample by sample while interleaving.
    let spec = SignalSpec::new_with_layout(44100, Layout::Stereo);
    let mut src = AudioBuffer::<i32>::new(Duration::Frames(2), &spec);
    let r: Result<(), ()> = src.render(None, |i| Ok(vec![i as i32 * 65536, -65536 * (i as i32)]));
    assert!(r.is_ok());
    let mut dst = SampleBuffer::<i16>::new(Duration::Frames(2), &spec);
    dst.copy_interleaved_typed(&src, Dither::NoOp);
    assert_eq!(dst.as_bytes(), le16(&[0, 0, 1, -1]).as_slice());
}

#[test]
fn ref_copy_dispatches_on_kind() {
    let spec = SignalSpec::new_with_layout(44100, Layout::Stereo);
    let mut src = AudioBuffer::<i32>::new(Duration::Frames(3), &spec);
    let r: Result<(), ()> = src.render(None, |i| Ok(vec![i as i32, 100 + i as i32]));
    assert!(r.is_ok());
    let asref = src.as_audio_buffer_ref();
    assert_eq!(asref.spec().rate, 44100);
    assert_eq!(asref.capacity(), 3);
    let mut via_ref = SampleBuffer::<i32>::new(Duration::Frames(3), &spec);
    via_ref.copy_interleaved_ref(src.as_audio_buffer_ref(), Dither::NoOp);
    let mut direct = SampleBuffer::<i32>::new(Duration::Frames(3), &spec);
    direct.copy_interleaved(&src);
    assert_eq!(via_ref.as_bytes(), direct.as_bytes());

    let mut planar_ref = SampleBuffer::<i32>::new(Duration::Frames(3), &spec);
    planar_ref.copy_planar_ref(src.as_audio_buffer_ref(), Dither::NoOp);
    let mut planar = SampleBuffer::<i32>::new(Duration::Frames(3), &spec);
    planar.copy_planar(&src);
    assert_eq!(planar_ref.as_bytes(), planar.as_bytes());
}

#[test]
fn ref_copy_converts_sixteen_bit_source() {
    let spec = SignalSpec::new_with_layout(44100, Layout::Mono);
    let mut src = AudioBuffer::<i16>::new(Duration::Frames(2), &spec);
    let r: Result<(), ()> = src.render(None, |i| Ok(vec![i as i16 + 1]));
    assert!(r.is_ok());
    let mut dst = SampleBuffer::<i32>::new(Duration::Frames(2), &spec);
    dst.copy_interleaved_ref(src.as_audio_buffer_ref(), Dither::NoOp);
    assert_eq!(dst.as_bytes(), le32(&[65536, 131072]).as_slice());
}

#[test]
fn packed_24_bit_export() {
    // The 24-bit kinds export a packed three-byte form.
    let spec = SignalSpec::new_with_layout(44100, Layout::Mono);
    let mut src = AudioBuffer::<u24>::new(Duration::Frames(2), &spec);
    let r: Result<(), ()> = src.render(None, |i| {
        Ok(vec![if i == 0 { u24::new(0x010203) } else { u24::new(0xFFFFFF) }])
    });
    assert!(r.is_ok());
    let mut dst = SampleBuffer::<u24>::new(Duration::Frames(2), &spec);
    dst.copy_planar(&src);
    assert_eq!(dst.samples(), 2);
    assert_eq!(dst.as_bytes(), &[0x03, 0x02, 0x01, 0xFF, 0xFF, 0xFF]);
}

#[test]
fn signed_byte_export_wraps_to_two_complement() {
    let spec = SignalSpec::new_with_layout(8000, Layout::Mono);
    let mut src = AudioBuffer::<i8>::new(Duration::Frames(3), &spec);
    let r: Result<(), ()> = src.render(None, |i| Ok(vec![[0i8, -1, -128][i]]));
    assert!(r.is_ok());
    let mut dst = SampleBuffer::<i8>::new(Duration::Frames(3), &spec);
    dst.copy_planar(&src);
    assert_eq!(dst.as_bytes(), &[0x00, 0xFF, 0x80]);
}

#[test]
fn sample_buffer_overwrites_previous_contents() {
    let spec = SignalSpec::new_with_layout(44100, Layout::Mono);
    let mut a = AudioBuffer::<i16>::new(Duration::Frames(4), &spec);
    let r: Result<(), ()> = a.render(None, |_i| Ok(vec![7i16]));
    assert!(r.is_ok());
    let mut b = AudioBuffer::<i16>::new(Duration::Frames(4), &spec);
    let r: Result<(), ()> = b.render(Some(2), |_i| Ok(vec![9i16]));
    assert!(r.is_ok());
    let mut dst = SampleBuffer::<i16>::new(Duration::Frames(4), &spec);
    dst.copy_interleaved(&a);
    assert_eq!(dst.samples(), 4);
    dst.copy_interleaved(&b);
    assert_eq!(dst.samples(), 2);
    assert_eq!(dst.as_bytes(), le16(&[9, 9]).as_slice());
}
