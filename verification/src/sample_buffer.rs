//! The export pipeline: copying a buffer's contents into a flat byte
//! buffer in planar or interleaved channel order, with inline sample-kind
//! conversion.
//!
//! A [`SampleBuffer`] owns a flat byte allocation sized for a fixed number
//! of exported samples. A [`SampleWriter`] is its sole write path: every
//! written sample lands at a unique, monotonically increasing, in-bounds
//! offset, so the exported byte region always reflects exactly the written
//! samples, never a partially written element.

use vstd::prelude::*;

use crate::buffer::{AudioBuffer, AudioBufferRef, AudioBufferView};
use crate::sample::{convert_sp, Dither, Sample};
use crate::signal::{duration_frames, Duration, SignalSpec};

verus! {

/// The byte stream a sequence of exported samples serialises to: each
/// sample's exported encoding, one after another.
pub open spec fn flat_bytes<S: WriteSample>(s: Seq<S>) -> Seq<u8>
    decreases s.len(),
{
    if s.len() == 0 {
        Seq::empty()
    } else {
        flat_bytes(s.drop_last()) + s.last().stream_bytes()
    }
}

/// Appending a sample appends exactly its exported bytes.
pub proof fn lemma_flat_bytes_push<S: WriteSample>(s: Seq<S>, x: S)
    ensures
        flat_bytes(s.push(x)) == flat_bytes(s) + x.stream_bytes(),
{
    assert(s.push(x).drop_last() =~= s);
    assert(s.push(x).last() == x);
}

/// The byte stream of `n` samples is `n` times the exported width long.
pub proof fn lemma_flat_bytes_len<S: WriteSample>(s: Seq<S>)
    ensures
        flat_bytes(s).len() == s.len() * S::stream_width(),
    decreases s.len(),
{
    if s.len() == 0 {
    } else {
        lemma_flat_bytes_len(s.drop_last());
        s.last().lemma_stream();
        assert(s.len() * S::stream_width() == (s.len() - 1) * S::stream_width()
            + S::stream_width()) by (nonlinear_arith);
    }
}

/// The samples of channel `c` of a buffer, one channel after another,
/// restricted to the first `c` channels: the planar serialisation order.
pub open spec fn planar_upto<S>(v: AudioBufferView<S>, c: int) -> Seq<S>
    decreases c,
{
    if c <= 0 {
        Seq::empty()
    } else {
        planar_upto(v, c - 1) + v.chan_sp(c - 1)
    }
}

/// A buffer's valid samples in planar order: each channel's valid samples
/// contiguously, channel 0 first, each block sized by the frame count.
pub open spec fn planar_samples<S>(v: AudioBufferView<S>) -> Seq<S> {
    planar_upto(v, v.channel_count() as int)
}

/// One frame of a buffer: the sample every channel holds at frame `i`.
pub open spec fn frame_at<S>(v: AudioBufferView<S>, i: int) -> Seq<S> {
    Seq::new(v.channel_count(), |c: int| v.planes[c][i])
}

/// The first `i` frames of a buffer, frame-major and channel-minor: the
/// interleaved serialisation order.
pub open spec fn interleaved_upto<S>(v: AudioBufferView<S>, i: int) -> Seq<S>
    decreases i,
{
    if i <= 0 {
        Seq::empty()
    } else {
        interleaved_upto(v, i - 1) + frame_at(v, i - 1)
    }
}

/// A buffer's valid samples in interleaved order.
pub open spec fn interleaved_samples<S>(v: AudioBufferView<S>) -> Seq<S> {
    interleaved_upto(v, v.frames as int)
}

/// The sequence of samples a sequence of another kind converts to,
/// elementwise through the canonical level.
pub open spec fn conv_seq<F: Sample, T: Sample>(s: Seq<F>) -> Seq<T> {
    Seq::new(s.len(), |i: int| convert_sp::<F, T>(s[i]))
}

/// The planar order serialises `channels * frames` samples.
pub proof fn lemma_planar_upto_len<S>(v: AudioBufferView<S>, c: int)
    requires
        v.wf(),
        0 <= c <= v.channel_count(),
    ensures
        planar_upto(v, c).len() == c * v.frames,
    decreases c,
{
    if c > 0 {
        lemma_planar_upto_len(v, c - 1);
        assert(v.chan_sp(c - 1).len() == v.frames);
        assert(c * v.frames == (c - 1) * v.frames + v.frames) by (nonlinear_arith);
    } else {
        assert(c * v.frames == 0) by (nonlinear_arith)
            requires
                c == 0,
        ;
    }
}

/// The interleaved order serialises `frames * channels` samples.
pub proof fn lemma_interleaved_upto_len<S>(v: AudioBufferView<S>, i: int)
    requires
        0 <= i,
    ensures
        interleaved_upto(v, i).len() == i * v.channel_count(),
    decreases i,
{
    if i > 0 {
        lemma_interleaved_upto_len(v, i - 1);
        assert(i * v.channel_count() == (i - 1) * v.channel_count() + v.channel_count())
            by (nonlinear_arith);
        assert(frame_at(v, i - 1).len() == v.channel_count());
    } else {
        assert(i * v.channel_count() == 0) by (nonlinear_arith)
            requires
                i == 0,
        ;
    }
}

/// A `SampleWriter` allows for the efficient sequential writing of samples
/// of a specific kind into a `SampleBuffer`'s byte allocation. It is the
/// sole write path: each sample is encoded whole at the next free offset.
pub struct SampleWriter<S: WriteSample> {
    buf: Vec<u8>,
    next: usize,
    total: usize,
    written: Ghost<Seq<S>>,
}

impl<S: WriteSample> SampleWriter<S> {
    /// The writer's byte buffer holds `total` exported sample slots, and
    /// its written prefix is exactly the serialisation of the samples
    /// written so far.
    pub closed spec fn wf(self) -> bool {
        &&& self.written@.len() == self.next
        &&& self.next <= self.total
        &&& self.buf@.len() == self.total * S::stream_width()
        &&& self.total * S::stream_width() <= usize::MAX
        &&& self.buf@.subrange(0, self.next * S::stream_width()) == flat_bytes(self.written@)
    }

    /// The samples written so far.
    pub closed spec fn written_sp(self) -> Seq<S> {
        self.written@
    }

    /// The fixed number of samples the writer may write in all.
    pub closed spec fn total_sp(self) -> nat {
        self.total as nat
    }

    /// Writes one sample's exported form at the next writable offset and
    /// advances the internal index.
    pub fn write(&mut self, sample: S)
        requires
            old(self).wf(),
            old(self).written_sp().len() < old(self).total_sp(),
        ensures
            final(self).wf(),
            final(self).total_sp() == old(self).total_sp(),
            final(self).written_sp() == old(self).written_sp().push(sample),
    {
        let w: usize = S::stream_size();
        proof {
            sample.lemma_stream();
            S::lemma_width();
            assert((self.next + 1) * w <= self.total * w) by (nonlinear_arith)
                requires
                    self.next < self.total,
                    w >= 0,
            ;
            assert(self.next * w + w == (self.next + 1) * w) by (nonlinear_arith);
            lemma_flat_bytes_len(self.written@);
        }
        let at: usize = self.next * w;
        let ghost prev = *self;
        S::put_bytes(sample, &mut self.buf, at);
        self.next = self.next + 1;
        proof {
            self.written@ = prev.written@.push(sample);
        }
        proof {
            lemma_flat_bytes_push(prev.written@, sample);
            assert(self.buf@.subrange(0, self.next * S::stream_width()) =~= flat_bytes(
                prev.written@,
            ) + sample.stream_bytes());
        }
    }
}

/// `WriteSample` is implemented by every sample kind with an exported
/// stream representation: a fixed-width little-endian byte encoding used
/// when serialising to a `SampleBuffer`.
pub trait WriteSample: Sample {
    /// The number of bytes of one exported sample.
    spec fn stream_width() -> nat;

    /// The exported byte encoding of this sample.
    spec fn stream_bytes(self) -> Seq<u8>;

    /// The exported width is between 1 and 4 bytes.
    proof fn lemma_width()
        ensures
            1 <= Self::stream_width() <= 4,
    ;

    /// The encoding is exactly `stream_width` bytes.
    proof fn lemma_stream(self)
        ensures
            self.stream_bytes().len() == Self::stream_width(),
    ;

    /// Gets the exported width in bytes.
    fn stream_size() -> (w: usize)
        ensures
            w == Self::stream_width(),
    ;

    /// Writes the exported bytes of `self` into `v` at byte offset `at`,
    /// leaving every other byte untouched.
    fn put_bytes(self, v: &mut Vec<u8>, at: usize)
        requires
            at + Self::stream_width() <= old(v)@.len(),
        ensures
            final(v)@.len() == old(v)@.len(),
            forall|i: int| 0 <= i < at ==> final(v)@[i] == old(v)@[i],
            forall|i: int|
                at + Self::stream_width() <= i < old(v)@.len() ==> final(v)@[i] == old(v)@[i],
            final(v)@.subrange(at as int, at + Self::stream_width()) == self.stream_bytes(),
    ;
}

/// A `SampleBuffer` is a sample-oriented byte buffer for exporting audio
/// out of the decoding pipeline: it stores exported samples contiguously
/// in whatever order a copy operation lays down, and exposes them as a
/// flat byte slice.
pub struct SampleBuffer<S: WriteSample> {
    buf: Vec<u8>,
    n_written: usize,
    n_total: usize,
    written: Ghost<Seq<S>>,
}

impl<S: WriteSample> SampleBuffer<S> {
    /// The byte allocation holds exactly `capacity` exported sample slots,
    /// and its prefix serialises the written samples.
    pub closed spec fn wf(self) -> bool {
        &&& self.written@.len() == self.n_written
        &&& self.n_written <= self.n_total
        &&& self.buf@.len() == self.n_total * S::stream_width()
        &&& self.n_total * S::stream_width() <= usize::MAX
        &&& self.buf@.subrange(0, self.n_written * S::stream_width()) == flat_bytes(self.written@)
    }

    /// The samples currently written, in the order they were laid down.
    pub closed spec fn written_sp(self) -> Seq<S> {
        self.written@
    }

    /// The maximum number of exported samples the buffer may store.
    pub closed spec fn capacity_sp(self) -> nat {
        self.n_total as nat
    }

    /// Instantiate a new `SampleBuffer` sized for the given duration and
    /// signal specification: one exported sample slot per frame and
    /// channel.
    pub fn new(duration: Duration, spec: &SignalSpec) -> (r: SampleBuffer<S>)
        requires
            duration_frames(duration) <= usize::MAX,
            duration_frames(duration) * spec.channels.count() * 4 <= usize::MAX,
        ensures
            r.wf(),
            r.capacity_sp() == duration_frames(duration) * spec.channels.count(),
            r.written_sp() == Seq::<S>::empty(),
    {
        let n_frames: usize = match duration {
            Duration::Frames(frames) => frames as usize,
        };
        let n_channels: usize = spec.channels.len();
        proof {
            assert(n_frames * n_channels <= n_frames * n_channels * 4) by (nonlinear_arith)
                requires
                    n_frames >= 0,
                    n_channels >= 0,
            ;
        }
        let n_samples: usize = n_frames * n_channels;
        let w: usize = S::stream_size();
        proof {
            S::lemma_width();
            assert(n_samples * w <= n_samples * 4) by (nonlinear_arith)
                requires
                    1 <= w <= 4,
                    n_samples >= 0,
            ;
        }
        let byte_len: usize = n_samples * w;
        let mut buf: Vec<u8> = Vec::new();
        let mut i: usize = 0;
        while i < byte_len
            invariant
                i <= byte_len,
                buf@.len() == i,
            decreases byte_len - i,
        {
            buf.push(0u8);
            i = i + 1;
        }
        let r = SampleBuffer { buf, n_written: 0, n_total: n_samples, written: Ghost(Seq::empty()) };
        proof {
            assert(r.buf@.subrange(0, 0) =~= flat_bytes(r.written@));
        }
        r
    }

    /// Gets the number of valid (written) samples stored.
    pub fn samples(&self) -> (n: usize)
        requires
            self.wf(),
        ensures
            n == self.written_sp().len(),
    {
        self.n_written
    }

    /// Gets the maximum number of samples the `SampleBuffer` may store.
    pub fn capacity(&self) -> (n: usize)
        ensures
            n == self.capacity_sp(),
    {
        self.n_total
    }

    /// Gets an immutable slice over the bytes of the samples written in
    /// the `SampleBuffer`: exactly the serialisation of the written
    /// samples, never a partially written element.
    pub fn as_bytes(&self) -> (r: &[u8])
        requires
            self.wf(),
        ensures
            r@ == flat_bytes(self.written_sp()),
    {
        let w: usize = S::stream_size();
        proof {
            S::lemma_width();
            assert(self.n_written * w <= self.n_total * w) by (nonlinear_arith)
                requires
                    self.n_written <= self.n_total,
                    w >= 0,
            ;
        }
        let end: usize = self.n_written * w;
        vstd::slice::slice_subrange(self.buf.as_slice(), 0, end)
    }
}

} // verus!
// The per-kind exported encodings. Integer kinds export their in-memory
// value; the signed kinds export their two's complement bit pattern; the
// 24-bit kinds export their packed three-byte form. All encodings are
// little-endian.

verus! {

/// The two's complement 16-bit pattern of a signed 16-bit value.
pub open spec fn u16_bits_of(x: i16) -> nat {
    if x >= 0 {
        x as nat
    } else {
        (x + 0x10000) as nat
    }
}

/// The two's complement 32-bit pattern of a signed 32-bit value.
pub open spec fn u32_bits_of(x: i32) -> nat {
    if x >= 0 {
        x as nat
    } else {
        (x + 0x100000000) as nat
    }
}

impl WriteSample for u8 {
    open spec fn stream_width() -> nat {
        1
    }

    open spec fn stream_bytes(self) -> Seq<u8> {
        seq![self]
    }

    proof fn lemma_width() {
    }

    proof fn lemma_stream(self) {
    }

    fn stream_size() -> usize {
        1
    }

    fn put_bytes(self, v: &mut Vec<u8>, at: usize) {
        v[at] = self;
        proof {
            assert(v@.subrange(at as int, at + 1) =~= self.stream_bytes());
        }
    }
}

impl WriteSample for i8 {
    open spec fn stream_width() -> nat {
        1
    }

    open spec fn stream_bytes(self) -> Seq<u8> {
        seq![
            if self >= 0 {
                self as u8
            } else {
                (self + 0x100) as u8
            },
        ]
    }

    proof fn lemma_width() {
    }

    proof fn lemma_stream(self) {
    }

    fn stream_size() -> usize {
        1
    }

    fn put_bytes(self, v: &mut Vec<u8>, at: usize) {
        let b: u8 = if self >= 0 {
            self as u8
        } else {
            ((self as i16) + 0x100) as u8
        };
        v[at] = b;
        proof {
            assert(v@.subrange(at as int, at + 1) =~= self.stream_bytes());
        }
    }
}

impl WriteSample for u16 {
    open spec fn stream_width() -> nat {
        2
    }

    open spec fn stream_bytes(self) -> Seq<u8> {
        seq![(self % 0x100) as u8, (self / 0x100) as u8]
    }

    proof fn lemma_width() {
    }

    proof fn lemma_stream(self) {
    }

    fn stream_size() -> usize {
        2
    }

    fn put_bytes(self, v: &mut Vec<u8>, at: usize) {
        let _vlen: usize = v.len();
        v[at] = (self % 0x100) as u8;
        v[at + 1] = (self / 0x100) as u8;
        proof {
            assert(v@.subrange(at as int, at + 2) =~= self.stream_bytes());
        }
    }
}

impl WriteSample for i16 {
    open spec fn stream_width() -> nat {
        2
    }

    open spec fn stream_bytes(self) -> Seq<u8> {
        seq![(u16_bits_of(self) % 0x100) as u8, (u16_bits_of(self) / 0x100) as u8]
    }

    proof fn lemma_width() {
    }

    proof fn lemma_stream(self) {
    }

    fn stream_size() -> usize {
        2
    }

    fn put_bytes(self, v: &mut Vec<u8>, at: usize) {
        let u: u16 = if self >= 0 {
            self as u16
        } else {
            ((self as i32) + 0x10000) as u16
        };
        let _vlen: usize = v.len();
        v[at] = (u % 0x100) as u8;
        v[at + 1] = (u / 0x100) as u8;
        proof {
            assert(u as nat == u16_bits_of(self));
            assert(v@.subrange(at as int, at + 2) =~= self.stream_bytes());
        }
    }
}

impl WriteSample for crate::sample::u24 {
    open spec fn stream_width() -> nat {
        3
    }

    open spec fn stream_bytes(self) -> Seq<u8> {
        seq![self.b0, self.b1, self.b2]
    }

    proof fn lemma_width() {
    }

    proof fn lemma_stream(self) {
    }

    fn stream_size() -> usize {
        3
    }

    fn put_bytes(self, v: &mut Vec<u8>, at: usize) {
        let _vlen: usize = v.len();
        v[at] = self.b0;
        v[at + 1] = self.b1;
        v[at + 2] = self.b2;
        proof {
            assert(v@.subrange(at as int, at + 3) =~= self.stream_bytes());
        }
    }
}

impl WriteSample for crate::sample::i24 {
    open spec fn stream_width() -> nat {
        3
    }

    open spec fn stream_bytes(self) -> Seq<u8> {
        seq![self.b0, self.b1, self.b2]
    }

    proof fn lemma_width() {
    }

    proof fn lemma_stream(self) {
    }

    fn stream_size() -> usize {
        3
    }

    fn put_bytes(self, v: &mut Vec<u8>, at: usize) {
        let _vlen: usize = v.len();
        v[at] = self.b0;
        v[at + 1] = self.b1;
        v[at + 2] = self.b2;
        proof {
            assert(v@.subrange(at as int, at + 3) =~= self.stream_bytes());
        }
    }
}

impl WriteSample for u32 {
    open spec fn stream_width() -> nat {
        4
    }

    open spec fn stream_bytes(self) -> Seq<u8> {
        seq![
            (self % 0x100) as u8,
            ((self / 0x100) % 0x100) as u8,
            ((self / 0x10000) % 0x100) as u8,
            (self / 0x1000000) as u8,
        ]
    }

    proof fn lemma_width() {
    }

    proof fn lemma_stream(self) {
    }

    fn stream_size() -> usize {
        4
    }

    fn put_bytes(self, v: &mut Vec<u8>, at: usize) {
        let _vlen: usize = v.len();
        v[at] = (self % 0x100) as u8;
        v[at + 1] = ((self / 0x100) % 0x100) as u8;
        v[at + 2] = ((self / 0x10000) % 0x100) as u8;
        v[at + 3] = (self / 0x1000000) as u8;
        proof {
            assert(v@.subrange(at as int, at + 4) =~= self.stream_bytes());
        }
    }
}

impl WriteSample for i32 {
    open spec fn stream_width() -> nat {
        4
    }

    open spec fn stream_bytes(self) -> Seq<u8> {
        seq![
            (u32_bits_of(self) % 0x100) as u8,
            ((u32_bits_of(self) / 0x100) % 0x100) as u8,
            ((u32_bits_of(self) / 0x10000) % 0x100) as u8,
            (u32_bits_of(self) / 0x1000000) as u8,
        ]
    }

    proof fn lemma_width() {
    }

    proof fn lemma_stream(self) {
    }

    fn stream_size() -> usize {
        4
    }

    fn put_bytes(self, v: &mut Vec<u8>, at: usize) {
        let u: u32 = if self >= 0 {
            self as u32
        } else {
            ((self as i64) + 0x100000000i64) as u32
        };
        let _vlen: usize = v.len();
        v[at] = (u % 0x100) as u8;
        v[at + 1] = ((u / 0x100) % 0x100) as u8;
        v[at + 2] = ((u / 0x10000) % 0x100) as u8;
        v[at + 3] = (u / 0x1000000) as u8;
        proof {
            assert(u as nat == u32_bits_of(self));
            assert(v@.subrange(at as int, at + 4) =~= self.stream_bytes());
        }
    }
}

} // verus!
verus! {

impl<S: WriteSample> SampleWriter<S> {
    /// Takes the writer apart when one copy operation is finished.
    fn into_parts(self) -> (r: (Vec<u8>, usize, Ghost<Seq<S>>))
        requires
            self.wf(),
        ensures
            r.0@.len() == self.total_sp() * S::stream_width(),
            self.total_sp() * S::stream_width() <= usize::MAX,
            r.1 == self.written_sp().len(),
            r.1 <= self.total_sp(),
            (r.2)@ == self.written_sp(),
            r.0@.subrange(0, r.1 * S::stream_width()) == flat_bytes(self.written_sp()),
    {
        (self.buf, self.next, self.written)
    }
}

impl<S: WriteSample> SampleBuffer<S> {
    /// Starts one copy operation: moves the byte allocation into a fresh
    /// writer positioned at offset zero.
    fn start_writer(&mut self) -> (w: SampleWriter<S>)
        requires
            old(self).wf(),
        ensures
            w.wf(),
            w.written_sp() == Seq::<S>::empty(),
            w.total_sp() == old(self).capacity_sp(),
            final(self).n_total == old(self).n_total,
            final(self).capacity_sp() == old(self).capacity_sp(),
    {
        let mut tmp: Vec<u8> = Vec::new();
        core::mem::swap(&mut tmp, &mut self.buf);
        let w = SampleWriter { buf: tmp, next: 0, total: self.n_total, written: Ghost(Seq::empty()) };
        proof {
            assert(w.buf@.subrange(0, 0) =~= flat_bytes(w.written@));
        }
        w
    }

    /// Ends one copy operation: moves the byte allocation back and commits
    /// the written sample count.
    fn finish_writer(&mut self, w: SampleWriter<S>)
        requires
            w.wf(),
            w.total_sp() == old(self).capacity_sp(),
        ensures
            final(self).wf(),
            final(self).capacity_sp() == old(self).capacity_sp(),
            final(self).written_sp() == w.written_sp(),
    {
        let (buf, next, written) = w.into_parts();
        self.buf = buf;
        self.n_written = next;
        proof {
            self.written@ = written@;
        }
    }

    /// Copies all valid audio data from the source buffer into this
    /// `SampleBuffer` in planar channel order, converting each sample to
    /// this buffer's kind and applying the given dither method if the
    /// conversion is lossy. The buffer must have room for every valid
    /// sample of the source.
    #[allow(unused_variables)]
    pub fn copy_planar_typed<F: Sample>(&mut self, src: &AudioBuffer<F>, dither: Dither)
        requires
            old(self).wf(),
            src.well_formed(),
            old(self).capacity_sp() >= src@.frames * src@.channel_count(),
        ensures
            final(self).wf(),
            final(self).capacity_sp() == old(self).capacity_sp(),
            final(self).written_sp() == conv_seq::<F, S>(planar_samples(src@)),
    {
        proof {
            src.lemma_well_formed();
        }
        let n_channels: usize = src.spec().channels.len();
        let n_frames: usize = src.frames();
        let mut writer = self.start_writer();
        let ghost total = writer.total_sp();
        let mut c: usize = 0;
        while c < n_channels
            invariant
                src.well_formed(),
                src@.wf(),
                c <= n_channels,
                n_channels <= 32,
                n_channels == src@.channel_count(),
                n_frames == src@.frames,
                total >= n_frames * n_channels,
                writer.wf(),
                writer.total_sp() == total,
                writer.written_sp() == conv_seq::<F, S>(planar_upto(src@, c as int)),
            decreases n_channels - c,
        {
            let chan = src.chan(c as u8);
            let mut i: usize = 0;
            while i < n_frames
                invariant
                    src.well_formed(),
                    src@.wf(),
                    c < n_channels,
                    i <= n_frames,
                    n_channels <= 32,
                    n_channels == src@.channel_count(),
                    n_frames == src@.frames,
                    total >= n_frames * n_channels,
                    chan@ == src@.chan_sp(c as int),
                    chan@.len() == n_frames,
                    writer.wf(),
                    writer.total_sp() == total,
                    writer.written_sp() == conv_seq::<F, S>(
                        planar_upto(src@, c as int) + src@.chan_sp(c as int).take(i as int),
                    ),
                decreases n_frames - i,
            {
                let x: F = *vstd::slice::slice_index_get(chan, i);
                let s: S = crate::sample::convert_sample::<F, S>(x);
                proof {
                    lemma_planar_upto_len(src@, c as int);
                    assert(c * n_frames + i < n_frames * n_channels) by (nonlinear_arith)
                        requires
                            0 <= c < n_channels,
                            0 <= i < n_frames,
                    ;
                }
                let ghost before = writer.written_sp();
                writer.write(s);
                proof {
                    assert(before.push(s) =~= conv_seq::<F, S>(
                        planar_upto(src@, c as int) + src@.chan_sp(c as int).take(i + 1),
                    ));
                }
                i = i + 1;
            }
            proof {
                assert(planar_upto(src@, c as int) + src@.chan_sp(c as int).take(n_frames as int)
                    =~= planar_upto(src@, c + 1));
            }
            c = c + 1;
        }
        self.finish_writer(writer);
    }

    /// Copies all valid audio data from the source buffer of the same
    /// sample kind into this `SampleBuffer` in planar channel order.
    pub fn copy_planar(&mut self, src: &AudioBuffer<S>)
        requires
            old(self).wf(),
            src.well_formed(),
            old(self).capacity_sp() >= src@.frames * src@.channel_count(),
        ensures
            final(self).wf(),
            final(self).capacity_sp() == old(self).capacity_sp(),
            final(self).written_sp() == planar_samples(src@),
    {
        self.copy_planar_typed::<S>(src, Dither::NoOp);
        proof {
            let p = planar_samples(src@);
            assert forall|k: int| 0 <= k < p.len() implies conv_seq::<S, S>(p)[k] == p[k] by {
                crate::sample::lemma_convert_identity::<S>(p[k]);
            }
            assert(conv_seq::<S, S>(p) =~= p);
        }
    }

    /// The general interleaving path: copies all valid audio data from the
    /// source buffer frame-major and channel-minor, one channel after
    /// another within each frame, converting each sample. It works for any
    /// channel count and is the reference the specialized mono and stereo
    /// paths of `copy_interleaved_typed` are held to: both satisfy the
    /// same exact contract.
    #[allow(unused_variables)]
    pub fn copy_interleaved_general<F: Sample>(&mut self, src: &AudioBuffer<F>, dither: Dither)
        requires
            old(self).wf(),
            src.well_formed(),
            old(self).capacity_sp() >= src@.frames * src@.channel_count(),
        ensures
            final(self).wf(),
            final(self).capacity_sp() == old(self).capacity_sp(),
            final(self).written_sp() == conv_seq::<F, S>(interleaved_samples(src@)),
    {
        proof {
            src.lemma_well_formed();
        }
        let n_channels: usize = src.spec().channels.len();
        let n_frames: usize = src.frames();
        let mut writer = self.start_writer();
        let ghost total = writer.total_sp();
        let mut i: usize = 0;
        while i < n_frames
            invariant
                src.well_formed(),
                src@.wf(),
                i <= n_frames,
                n_channels <= 32,
                n_channels == src@.channel_count(),
                n_frames == src@.frames,
                total >= n_frames * n_channels,
                writer.wf(),
                writer.total_sp() == total,
                writer.written_sp() == conv_seq::<F, S>(interleaved_upto(src@, i as int)),
            decreases n_frames - i,
        {
            let mut c: usize = 0;
            while c < n_channels
                invariant
                    src.well_formed(),
                    src@.wf(),
                    i < n_frames,
                    c <= n_channels,
                    n_channels <= 32,
                    n_channels == src@.channel_count(),
                    n_frames == src@.frames,
                    total >= n_frames * n_channels,
                    writer.wf(),
                    writer.total_sp() == total,
                    writer.written_sp() == conv_seq::<F, S>(
                        interleaved_upto(src@, i as int) + frame_at(src@, i as int).take(c as int),
                    ),
                decreases n_channels - c,
            {
                let x: F = *vstd::slice::slice_index_get(src.chan(c as u8), i);
                let s: S = crate::sample::convert_sample::<F, S>(x);
                proof {
                    lemma_interleaved_upto_len(src@, i as int);
                    assert(i * n_channels + c < n_frames * n_channels) by (nonlinear_arith)
                        requires
                            0 <= c < n_channels,
                            0 <= i < n_frames,
                    ;
                }
                let ghost before = writer.written_sp();
                writer.write(s);
                proof {
                    assert(src@.chan_sp(c as int)[i as int] == frame_at(src@, i as int)[c as int]);
                    assert(before.push(s) =~= conv_seq::<F, S>(
                        interleaved_upto(src@, i as int) + frame_at(src@, i as int).take(c + 1),
                    ));
                }
                c = c + 1;
            }
            proof {
                assert(interleaved_upto(src@, i as int) + frame_at(src@, i as int).take(
                    n_channels as int,
                ) =~= interleaved_upto(src@, i + 1));
            }
            i = i + 1;
        }
        self.finish_writer(writer);
    }

    /// Copies all valid audio data from the source buffer into this
    /// `SampleBuffer` in interleaved channel order (frame-major and
    /// channel-minor), converting each sample to this buffer's kind and
    /// applying the given dither method if the conversion is lossy. Mono
    /// and stereo sources take a specialized straight-line path whose
    /// behaviour is identical to the general path.
    #[allow(unused_variables)]
    pub fn copy_interleaved_typed<F: Sample>(&mut self, src: &AudioBuffer<F>, dither: Dither)
        requires
            old(self).wf(),
            src.well_formed(),
            old(self).capacity_sp() >= src@.frames * src@.channel_count(),
        ensures
            final(self).wf(),
            final(self).capacity_sp() == old(self).capacity_sp(),
            final(self).written_sp() == conv_seq::<F, S>(interleaved_samples(src@)),
    {
        proof {
            src.lemma_well_formed();
        }
        let n_channels: usize = src.spec().channels.len();
        let n_frames: usize = src.frames();
        if n_channels == 0 {
            // No channels: the interleaved order is empty, and any stale
            // sample count is discarded.
            let mut writer = self.start_writer();
            self.finish_writer(writer);
            proof {
                lemma_interleaved_upto_len(src@, n_frames as int);
                assert(n_frames as int * src@.channel_count() == 0) by (nonlinear_arith)
                    requires
                        src@.channel_count() == 0,
                ;
                assert(conv_seq::<F, S>(interleaved_samples(src@)) =~= Seq::<S>::empty());
            }
        } else if n_channels == 1 {
            let chan = src.chan(0);
            let mut writer = self.start_writer();
            let ghost total = writer.total_sp();
            proof {
                assert(src@.frames * src@.channel_count() == src@.frames) by (nonlinear_arith)
                    requires
                        src@.channel_count() == 1,
                ;
            }
            let mut i: usize = 0;
            while i < n_frames
                invariant
                    src.well_formed(),
                    src@.wf(),
                    i <= n_frames,
                    1 == src@.channel_count(),
                    n_frames == src@.frames,
                    total >= n_frames,
                    chan@ == src@.chan_sp(0),
                    chan@.len() == n_frames,
                    writer.wf(),
                    writer.total_sp() == total,
                    writer.written_sp() == conv_seq::<F, S>(interleaved_upto(src@, i as int)),
                decreases n_frames - i,
            {
                let x: F = *vstd::slice::slice_index_get(chan, i);
                let s: S = crate::sample::convert_sample::<F, S>(x);
                proof {
                    lemma_interleaved_upto_len(src@, i as int);
                }
                let ghost before = writer.written_sp();
                writer.write(s);
                proof {
                    assert(before.push(s) =~= conv_seq::<F, S>(interleaved_upto(src@, i + 1)));
                }
                i = i + 1;
            }
            self.finish_writer(writer);
        } else if n_channels == 2 {
            let l_buf = src.chan(0);
            let r_buf = src.chan(1);
            let mut writer = self.start_writer();
            let ghost total = writer.total_sp();
            proof {
                assert(src@.frames * src@.channel_count() == src@.frames * 2) by (nonlinear_arith)
                    requires
                        src@.channel_count() == 2,
                ;
            }
            let mut i: usize = 0;
            while i < n_frames
                invariant
                    src.well_formed(),
                    src@.wf(),
                    i <= n_frames,
                    2 == src@.channel_count(),
                    n_frames == src@.frames,
                    total >= n_frames * 2,
                    l_buf@ == src@.chan_sp(0),
                    r_buf@ == src@.chan_sp(1),
                    l_buf@.len() == n_frames,
                    r_buf@.len() == n_frames,
                    writer.wf(),
                    writer.total_sp() == total,
                    writer.written_sp() == conv_seq::<F, S>(interleaved_upto(src@, i as int)),
                decreases n_frames - i,
            {
                let l: F = *vstd::slice::slice_index_get(l_buf, i);
                let r: F = *vstd::slice::slice_index_get(r_buf, i);
                let ls: S = crate::sample::convert_sample::<F, S>(l);
                let rs: S = crate::sample::convert_sample::<F, S>(r);
                proof {
                    lemma_interleaved_upto_len(src@, i as int);
                    assert(2 * i + 2 <= 2 * n_frames) by (nonlinear_arith)
                        requires
                            0 <= i < n_frames,
                    ;
                    assert(i * 2 == 2 * i) by (nonlinear_arith);
                    assert(n_frames * 2 == 2 * n_frames) by (nonlinear_arith);
                }
                let ghost before = writer.written_sp();
                writer.write(ls);
                writer.write(rs);
                proof {
                    assert(before.push(ls).push(rs) =~= conv_seq::<F, S>(
                        interleaved_upto(src@, i + 1),
                    ));
                }
                i = i + 1;
            }
            self.finish_writer(writer);
        } else {
            self.copy_interleaved_general::<F>(src, dither);
        }
    }

    /// Copies all valid audio data from the source buffer of the same
    /// sample kind into this `SampleBuffer` in interleaved channel order.
    pub fn copy_interleaved(&mut self, src: &AudioBuffer<S>)
        requires
            old(self).wf(),
            src.well_formed(),
            old(self).capacity_sp() >= src@.frames * src@.channel_count(),
        ensures
            final(self).wf(),
            final(self).capacity_sp() == old(self).capacity_sp(),
            final(self).written_sp() == interleaved_samples(src@),
    {
        self.copy_interleaved_typed::<S>(src, Dither::NoOp);
        proof {
            let p = interleaved_samples(src@);
            assert forall|k: int| 0 <= k < p.len() implies conv_seq::<S, S>(p)[k] == p[k] by {
                crate::sample::lemma_convert_identity::<S>(p[k]);
            }
            assert(conv_seq::<S, S>(p) =~= p);
        }
    }

    /// Copies all valid audio data from the type-erased source reference
    /// into this `SampleBuffer` in planar channel order, converting from
    /// whichever sample kind the reference holds. This is the one place
    /// the closed set of interchange kinds is matched exhaustively.
    pub fn copy_planar_ref(&mut self, src: AudioBufferRef, dither: Dither)
        requires
            old(self).wf(),
            src.wf(),
            old(self).capacity_sp() >= src.frames_sp() * src.spec_sp().channels.count(),
        ensures
            final(self).wf(),
            final(self).capacity_sp() == old(self).capacity_sp(),
            src matches AudioBufferRef::S16(b) ==> final(self).written_sp() == conv_seq::<i16, S>(
                planar_samples(b@),
            ),
            src matches AudioBufferRef::S32(b) ==> final(self).written_sp() == conv_seq::<i32, S>(
                planar_samples(b@),
            ),
    {
        match src {
            AudioBufferRef::S16(buf) => self.copy_planar_typed::<i16>(buf, dither),
            AudioBufferRef::S32(buf) => self.copy_planar_typed::<i32>(buf, dither),
        }
    }

    /// Copies all valid audio data from the type-erased source reference
    /// into this `SampleBuffer` in interleaved channel order, converting
    /// from whichever sample kind the reference holds.
    pub fn copy_interleaved_ref(&mut self, src: AudioBufferRef, dither: Dither)
        requires
            old(self).wf(),
            src.wf(),
            old(self).capacity_sp() >= src.frames_sp() * src.spec_sp().channels.count(),
        ensures
            final(self).wf(),
            final(self).capacity_sp() == old(self).capacity_sp(),
            src matches AudioBufferRef::S16(b) ==> final(self).written_sp() == conv_seq::<i16, S>(
                interleaved_samples(b@),
            ),
            src matches AudioBufferRef::S32(b) ==> final(self).written_sp() == conv_seq::<i32, S>(
                interleaved_samples(b@),
            ),
    {
        match src {
            AudioBufferRef::S16(buf) => self.copy_interleaved_typed::<i16>(buf, dither),
            AudioBufferRef::S32(buf) => self.copy_interleaved_typed::<i32>(buf, dither),
        }
    }
}

} // verus!
