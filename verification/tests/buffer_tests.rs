use sonata_audio::buffer::AudioBuffer;
use sonata_audio::sample::Dither;
use sonata_audio::signal::{Channels, Duration, Layout, SignalSpec};

fn stereo_spec() -> SignalSpec {
    SignalSpec::new_with_layout(44100, Layout::Stereo)
}

#[test]
fn new_buffer_is_empty_and_zero_filled() {
    let spec = stereo_spec();
    let buf = AudioBuffer::<i16>::new(Duration::Frames(4), &spec);
    assert_eq!(buf.frames(), 0);
    assert_eq!(buf.capacity(), 4);
    assert_eq!(buf.spec().rate, 44100);
    assert_eq!(buf.spec().channels.len(), 2);
    assert_eq!(buf.chan(0).len(), 0);
    assert_eq!(buf.chan(1).len(), 0);
}

#[test]
fn unused_buffer_is_a_sentinel() {
    let buf = AudioBuffer::<i32>::unused();
    assert!(buf.is_unused());
    assert_eq!(buf.capacity(), 0);
    assert_eq!(buf.frames(), 0);
    assert_eq!(buf.spec().rate, 0);
    assert_eq!(buf.spec().channels.len(), 0);
    let planes = buf.planes();
    assert_eq!(planes.planes().len(), 0);
}

#[test]
fn zero_frame_buffer_is_unused() {
    let spec = stereo_spec();
    let buf = AudioBuffer::<i16>::new(Duration::Frames(0), &spec);
    assert!(buf.is_unused());
    assert_eq!(buf.chan(0).len(), 0);
    assert_eq!(buf.chan(1).len(), 0);
}

#[test]
fn clear_then_render_k_frames() {
    // Rendering k frames after a clear leaves exactly k frames, and every
    // channel's accessor returns exactly k samples, for several k.
    let spec = stereo_spec();
    let mut buf = AudioBuffer::<i16>::new(Duration::Frames(8), &spec);
    for k in [0usize, 1, 5, 8] {
        buf.clear();
        let r: Result<(), ()> = buf.render(Some(k), |_i| Ok(vec![0i16, 0i16]));
        assert!(r.is_ok());
        assert_eq!(buf.frames(), k);
        assert_eq!(buf.chan(0).len(), k);
        assert_eq!(buf.chan(1).len(), k);
        let planes = buf.planes();
        let planes = planes.planes();
        assert_eq!(planes.len(), 2);
        assert_eq!(planes[0].len(), k);
        assert_eq!(planes[1].len(), k);
    }
}

#[test]
fn render_failure_commits_partially() {
    // A callback failing at frame m leaves frames == m: not 0 and not k.
    let spec = stereo_spec();
    let mut buf = AudioBuffer::<i16>::new(Duration::Frames(8), &spec);
    let r: Result<(), &str> = buf.render(
        Some(6),
        |i| if i < 2 { Ok(vec![1i16, 2i16]) } else { Err("decode failed") },
    );
    assert_eq!(r, Err("decode failed"));
    assert_eq!(buf.frames(), 2);
    assert_eq!(buf.chan(0), &[1, 1]);
    assert_eq!(buf.chan(1), &[2, 2]);
}

#[test]
fn render_writes_per_frame_values() {
    let spec = stereo_spec();
    let mut buf = AudioBuffer::<i32>::new(Duration::Frames(4), &spec);
    let r: Result<(), ()> = buf.render(None, |i| Ok(vec![i as i32, i as i32 + 100]));
    assert!(r.is_ok());
    assert_eq!(buf.frames(), 4);
    assert_eq!(buf.chan(0), &[0, 1, 2, 3]);
    assert_eq!(buf.chan(1), &[100, 101, 102, 103]);
}

#[test]
fn fill_clears_then_renders_all() {
    let spec = SignalSpec::new_with_layout(8000, Layout::Mono);
    let mut buf = AudioBuffer::<i16>::new(Duration::Frames(4), &spec);
    let r: Result<(), ()> = buf.render(Some(2), |_i| Ok(vec![7i16]));
    assert!(r.is_ok());
    let r: Result<(), ()> = buf.fill(|i| Ok(vec![i as i16 * 10]));
    assert!(r.is_ok());
    assert_eq!(buf.frames(), 4);
    assert_eq!(buf.chan(0), &[0, 10, 20, 30]);
}

#[test]
fn render_reserved_advances_cursor() {
    let spec = stereo_spec();
    let mut buf = AudioBuffer::<i16>::new(Duration::Frames(8), &spec);
    buf.render_reserved(Some(3));
    assert_eq!(buf.frames(), 3);
    buf.render_reserved(None);
    assert_eq!(buf.frames(), 8);
    buf.clear();
    assert_eq!(buf.frames(), 0);
}

#[test]
fn chan_mut_writes_one_channel() {
    let spec = stereo_spec();
    let mut buf = AudioBuffer::<i16>::new(Duration::Frames(4), &spec);
    buf.render_reserved(Some(2));
    {
        let chan = buf.chan_mut(1);
        chan[0] = 5;
        chan[1] = 6;
    }
    assert_eq!(buf.chan(0), &[0, 0]);
    assert_eq!(buf.chan(1), &[5, 6]);
}

#[test]
fn chan_pair_mut_gives_disjoint_views() {
    // The contract requires the two channels to differ, so the two views
    // can never alias; writes through one never show through the other.
    let spec = stereo_spec();
    let mut buf = AudioBuffer::<i16>::new(Duration::Frames(4), &spec);
    buf.render_reserved(Some(3));
    {
        let (a, b) = buf.chan_pair_mut(0, 1);
        assert_eq!(a.len(), 3);
        assert_eq!(b.len(), 3);
        a[0] = 11;
        b[0] = 22;
        assert_eq!(a[0], 11);
        assert_eq!(b[0], 22);
    }
    assert_eq!(buf.chan(0), &[11, 0, 0]);
    assert_eq!(buf.chan(1), &[22, 0, 0]);
    {
        // The reversed order works too and binds each view to its channel.
        let (a, b) = buf.chan_pair_mut(1, 0);
        a[1] = 33;
        b[1] = 44;
    }
    assert_eq!(buf.chan(0)[1], 44);
    assert_eq!(buf.chan(1)[1], 33);
}

#[test]
fn transform_maps_valid_samples() {
    let spec = stereo_spec();
    let mut buf = AudioBuffer::<i16>::new(Duration::Frames(4), &spec);
    let r: Result<(), ()> = buf.render(Some(2), |i| Ok(vec![i as i16, -(i as i16)]));
    assert!(r.is_ok());
    buf.transform(|x| x.saturating_add(1));
    assert_eq!(buf.chan(0), &[1, 2]);
    assert_eq!(buf.chan(1), &[1, 0]);
}

#[test]
fn planes_mut_store_planes_round_trip() {
    let spec = stereo_spec();
    let mut buf = AudioBuffer::<i16>::new(Duration::Frames(4), &spec);
    let r: Result<(), ()> = buf.render(Some(2), |_i| Ok(vec![1i16, 2i16]));
    assert!(r.is_ok());
    let mut staged = buf.planes_mut();
    {
        let planes = staged.planes();
        assert_eq!(planes.len(), 2);
        planes[0][1] = 9;
        planes[1][0] = 8;
    }
    buf.store_planes(&staged);
    assert_eq!(buf.chan(0), &[1, 9]);
    assert_eq!(buf.chan(1), &[8, 2]);
}

#[test]
fn convert_preserves_round_trip() {
    // 16-bit -> 32-bit -> 16-bit is lossless: the original samples come
    // back exactly.
    let spec = stereo_spec();
    let mut a = AudioBuffer::<i16>::new(Duration::Frames(4), &spec);
    let r: Result<(), ()> = a.render(
        None,
        |i| Ok(vec![[-32768i16, -1, 0, 32767][i], [100i16, 200, 300, 400][i]]),
    );
    assert!(r.is_ok());
    let mut b: AudioBuffer<i32> = a.make_equivalent();
    b.render_reserved(Some(4));
    a.convert(&mut b, Dither::NoOp);
    let mut c: AudioBuffer<i16> = a.make_equivalent();
    c.render_reserved(Some(4));
    b.convert(&mut c, Dither::NoOp);
    assert_eq!(c.chan(0), a.chan(0));
    assert_eq!(c.chan(1), a.chan(1));
}

#[test]
fn convert_rescales_by_width() {
    let spec = SignalSpec::new(48000, Channels::new(0b1));
    let mut a = AudioBuffer::<i16>::new(Duration::Frames(3), &spec);
    let r: Result<(), ()> = a.render(None, |i| Ok(vec![[0i16, 1, -32768][i]]));
    assert!(r.is_ok());
    let mut b: AudioBuffer<i32> = a.make_equivalent();
    b.render_reserved(Some(3));
    a.convert(&mut b, Dither::NoOp);
    assert_eq!(b.chan(0), &[0, 65536, -2147483648]);
}
