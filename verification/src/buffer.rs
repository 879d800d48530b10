//! The planar audio buffer and the signal protocol used to fill it.
//!
//! An [`AudioBuffer`] owns one contiguous allocation holding up to
//! `capacity` frames for each of its channels. Plane `c` occupies the index
//! range `[c * capacity, (c + 1) * capacity)`; a cursor tracks how many
//! frames of each plane are currently valid, and is identical across all
//! planes.

use vstd::prelude::*;

use crate::sample::{convert_sp, convert_sample, Dither, Sample};
use crate::signal::{duration_frames, Channels, Duration, SignalSpec};

verus! {

/// The mathematical model of an [`AudioBuffer`]: its signal specification,
/// its fixed capacity, its cursor, and the full contents of each plane
/// (including the stale region past the cursor).
pub struct AudioBufferView<S> {
    /// The signal specification.
    pub spec: SignalSpec,
    /// The fixed per-channel frame capacity.
    pub capacity: nat,
    /// The number of valid frames, identical across planes.
    pub frames: nat,
    /// One sequence of `capacity` samples per channel.
    pub planes: Seq<Seq<S>>,
}

impl<S> AudioBufferView<S> {
    /// The number of channels.
    pub open spec fn channel_count(self) -> nat {
        self.spec.channels.count()
    }

    /// A model buffer is well formed when it has one full-length plane per
    /// channel and its cursor does not pass its capacity.
    pub open spec fn wf(self) -> bool {
        &&& self.planes.len() == self.channel_count()
        &&& self.frames <= self.capacity
        &&& forall|c: int|
            0 <= c < self.planes.len() ==> (#[trigger] self.planes[c]).len() == self.capacity
        &&& self.capacity * self.channel_count() <= usize::MAX
    }

    /// The valid (written) prefix of channel `c`.
    pub open spec fn chan_sp(self, c: int) -> Seq<S> {
        self.planes[c].take(self.frames as int)
    }
}

/// The sequences of `capacity`-long planes carved out of one flat
/// allocation.
pub open spec fn planes_of<S>(buf: Seq<S>, capacity: nat, count: nat) -> Seq<Seq<S>> {
    Seq::new(count, |c: int| buf.subrange(c * capacity, c * capacity + capacity))
}

/// Bounds of plane `c` within one flat allocation of `count` planes of
/// length `capacity`.
pub proof fn lemma_plane_bounds(capacity: int, count: int, c: int)
    requires
        capacity >= 0,
        0 <= c < count,
    ensures
        0 <= c * capacity,
        c * capacity + capacity <= capacity * count,
{
    assert(0 <= c * capacity && c * capacity + capacity <= capacity * count) by (nonlinear_arith)
        requires
            capacity >= 0,
            0 <= c < count,
    ;
}

/// Flat indices of distinct planes never coincide.
proof fn lemma_plane_disjoint(capacity: int, c: int, d: int, j: int, k: int)
    requires
        0 <= j < capacity,
        0 <= k < capacity,
        c >= 0,
        d >= 0,
        c != d,
    ensures
        d * capacity + j != c * capacity + k,
{
    assert(d * capacity + j != c * capacity + k) by (nonlinear_arith)
        requires
            0 <= j < capacity,
            0 <= k < capacity,
            c >= 0,
            d >= 0,
            c != d,
    ;
}

/// Updating the sample at flat index `c * capacity + k` updates exactly
/// slot `k` of plane `c`.
proof fn lemma_planes_of_update<S>(buf: Seq<S>, capacity: nat, count: nat, c: int, k: int, v: S)
    requires
        buf.len() == capacity * count,
        0 <= c < count,
        0 <= k < capacity,
    ensures
        planes_of(buf.update(c * capacity + k, v), capacity, count) == planes_of(
            buf,
            capacity,
            count,
        ).update(c, planes_of(buf, capacity, count)[c].update(k, v)),
{
    let pre = planes_of(buf, capacity, count);
    let post = planes_of(buf.update(c * capacity + k, v), capacity, count);
    let expect = pre.update(c, pre[c].update(k, v));
    lemma_plane_bounds(capacity as int, count as int, c);
    assert forall|d: int| 0 <= d < count implies post[d] == expect[d] by {
        lemma_plane_bounds(capacity as int, count as int, d);
        if d == c {
            assert(post[d] =~= expect[d]);
        } else {
            assert forall|j: int| 0 <= j < capacity implies post[d][j] == expect[d][j] by {
                lemma_plane_disjoint(capacity as int, c, d, j, k);
            }
            assert(post[d] =~= expect[d]);
        }
    }
    assert(post =~= expect);
}

/// `AudioPlanes` provides immutable views of each audio channel (plane)
/// contained in a signal, each exactly as long as the buffer's valid frame
/// count.
pub struct AudioPlanes<'a, S: Sample> {
    planes: Vec<&'a [S]>,
}

impl<'a, S: Sample> View for AudioPlanes<'a, S> {
    type V = Seq<Seq<S>>;

    closed spec fn view(&self) -> Seq<Seq<S>> {
        Seq::new(self.planes@.len(), |c: int| self.planes@[c]@)
    }
}

impl<'a, S: Sample> AudioPlanes<'a, S> {
    /// Gets all the audio planes, one per channel.
    pub fn planes(&self) -> (r: &[&'a [S]])
        ensures
            r@.len() == self@.len(),
            forall|c: int| 0 <= c < self@.len() ==> (#[trigger] r@[c])@ == self@[c],
    {
        self.planes.as_slice()
    }
}

/// `AudioPlanesMut` holds an owned, dense copy of each audio channel's
/// valid samples, for mutating batches of frames. It is produced by
/// `AudioBuffer::planes_mut` and written back with
/// `AudioBuffer::store_planes`.
pub struct AudioPlanesMut<S: Sample> {
    /// One dense sequence of valid samples per channel.
    pub planes: Vec<Vec<S>>,
}

impl<S: Sample> AudioPlanesMut<S> {
    /// Gets all the audio planes, one per channel, for mutation.
    pub fn planes(&mut self) -> (r: &mut Vec<Vec<S>>)
        ensures
            *r == old(self).planes,
            final(self).planes == *final(r),
    {
        &mut self.planes
    }
}

/// A buffer's model with its cursor reset, as `clear` leaves it.
pub open spec fn cleared<S>(v: AudioBufferView<S>) -> AudioBufferView<S> {
    AudioBufferView { frames: 0, ..v }
}

/// The number of frames a `render` call is asked to commit: the explicit
/// request, or the remaining capacity when the request is absent.
pub open spec fn render_target<S>(pre: AudioBufferView<S>, n_frames: Option<usize>) -> nat {
    match n_frames {
        Some(n) => n as nat,
        None => (pre.capacity - pre.frames) as nat,
    }
}

/// Frame `j` (relative to the pre-state cursor) was committed from one
/// answer of the per-frame callback `f`: some value the callback may return
/// for that frame index stands, one sample per channel, in every plane.
pub open spec fn rendered_frame<S: Sample, E, F: Fn(usize) -> Result<Vec<S>, E>>(
    pre: AudioBufferView<S>,
    post: AudioBufferView<S>,
    j: int,
    f: F,
) -> bool {
    exists|v: Vec<S>|
        #[trigger] call_ensures(f, ((pre.frames + j) as usize,), Result::<Vec<S>, E>::Ok(v))
            && (forall|c: int|
            0 <= c < post.planes.len() ==> #[trigger] post.planes[c][pre.frames + j] == v@[c])
}

/// Extracts, for one committed frame, a callback answer that stands in
/// the planes: the one witness behind `rendered_frame`, for callers that
/// need the committed samples themselves.
pub proof fn lemma_rendered_frame_value<S: Sample, E, F: Fn(usize) -> Result<Vec<S>, E>>(
    pre: AudioBufferView<S>,
    post: AudioBufferView<S>,
    j: int,
    f: F,
) -> (v: Vec<S>)
    requires
        rendered_frame(pre, post, j, f),
    ensures
        call_ensures(f, ((pre.frames + j) as usize,), Result::<Vec<S>, E>::Ok(v)),
        forall|c: int|
            0 <= c < post.planes.len() ==> #[trigger] post.planes[c][pre.frames + j] == v@[c],
{
    choose|v: Vec<S>|
        call_ensures(f, ((pre.frames + j) as usize,), Result::<Vec<S>, E>::Ok(v)) && (forall|
            c: int,
        |
            0 <= c < post.planes.len() ==> #[trigger] post.planes[c][pre.frames + j] == v@[c])
}

/// A committed frame stays committed in any later model whose planes agree
/// on that frame's samples.
proof fn lemma_rendered_frame_stable<S: Sample, E, F: Fn(usize) -> Result<Vec<S>, E>>(
    pre: AudioBufferView<S>,
    a: AudioBufferView<S>,
    b: AudioBufferView<S>,
    j: int,
    f: F,
)
    requires
        rendered_frame(pre, a, j, f),
        b.planes.len() == a.planes.len(),
        forall|d: int|
            0 <= d < a.planes.len() ==> #[trigger] b.planes[d][pre.frames + j] == a.planes[d][
                pre.frames + j
            ],
    ensures
        rendered_frame(pre, b, j, f),
{
    let w = choose|w: Vec<S>|
        call_ensures(f, ((pre.frames + j) as usize,), Result::<Vec<S>, E>::Ok(w)) && (forall|
            c: int,
        |
            0 <= c < a.planes.len() ==> #[trigger] a.planes[c][pre.frames + j] == w@[c]);
    assert(forall|c: int|
        0 <= c < b.planes.len() ==> #[trigger] b.planes[c][pre.frames + j] == w@[c]);
}

/// The relation `render` establishes between a buffer's model before and
/// after `m` frames have been committed in increasing order by the
/// per-frame callback `f`: the cursor advanced by exactly `m`, every other
/// sample is untouched, and each committed frame holds an answer of `f`.
pub open spec fn render_committed<S: Sample, E, F: Fn(usize) -> Result<Vec<S>, E>>(
    pre: AudioBufferView<S>,
    post: AudioBufferView<S>,
    m: nat,
    f: F,
) -> bool {
    &&& post.spec == pre.spec
    &&& post.capacity == pre.capacity
    &&& post.frames == pre.frames + m
    &&& post.planes.len() == pre.planes.len()
    &&& forall|c: int|
        0 <= c < post.planes.len() ==> (#[trigger] post.planes[c]).len() == pre.planes[c].len()
    &&& forall|c: int, k: int|
        #![trigger post.planes[c][k]]
        0 <= c < pre.planes.len() && 0 <= k < pre.planes[c].len() && !(pre.frames <= k
            < pre.frames + m) ==> post.planes[c][k] == pre.planes[c][k]
    &&& forall|j: int| 0 <= j < m ==> #[trigger] rendered_frame(pre, post, j, f)
}

/// `AudioBuffer` is a container for multi-channel planar audio sample data.
/// It is characterized by its capacity (the maximum number of frames it may
/// store per channel, fixed at construction) and its signal specification.
/// Samples are manipulated through the signal protocol: `render`, `fill`,
/// `clear`, and the channel accessors.
pub struct AudioBuffer<S: Sample> {
    buf: Vec<S>,
    spec: SignalSpec,
    n_frames: usize,
    n_capacity: usize,
}

impl<S: Sample> View for AudioBuffer<S> {
    type V = AudioBufferView<S>;

    closed spec fn view(&self) -> AudioBufferView<S> {
        AudioBufferView {
            spec: self.spec,
            capacity: self.n_capacity as nat,
            frames: self.n_frames as nat,
            planes: planes_of(self.buf@, self.n_capacity as nat, self.spec.channels.count()),
        }
    }
}

impl<S: Sample> AudioBuffer<S> {
    /// The internal invariant: the flat allocation holds exactly one
    /// `capacity`-long plane per channel, and the cursor is in bounds.
    pub closed spec fn well_formed(self) -> bool {
        &&& self.buf@.len() == self.n_capacity * self.spec.channels.count()
        &&& self.n_frames <= self.n_capacity
        &&& self.n_capacity * self.spec.channels.count() <= usize::MAX
    }

    /// A well-formed buffer has a well-formed model.
    pub proof fn lemma_well_formed(self)
        requires
            self.well_formed(),
        ensures
            self@.wf(),
            self@.frames <= self@.capacity,
            forall|c: int|
                0 <= c < self@.channel_count() ==> (#[trigger] self@.chan_sp(c)).len()
                    == self@.frames,
    {
        assert forall|c: int| 0 <= c < self@.channel_count() implies (#[trigger] self@.planes[
            c
        ]).len() == self@.capacity by {
            lemma_plane_bounds(self.n_capacity as int, self.spec.channels.count() as int, c);
        }
    }

    /// Instantiate a new `AudioBuffer` using the specified signal
    /// specification and of the given duration. Every sample starts at the
    /// kind's neutral value; no region is ever left uninitialized.
    pub fn new(duration: Duration, spec: &SignalSpec) -> (b: AudioBuffer<S>)
        requires
            duration_frames(duration) * spec.channels.count() <= usize::MAX,
            duration_frames(duration) <= usize::MAX,
        ensures
            b.well_formed(),
            b@.spec == *spec,
            b@.capacity == duration_frames(duration),
            b@.frames == 0,
            forall|c: int, k: int|
                0 <= c < b@.channel_count() && 0 <= k < b@.capacity ==> b@.planes[c][k]
                    == S::default_sp(),
    {
        let n_capacity: usize = match duration {
            Duration::Frames(frames) => frames as usize,
        };
        let n_channels: usize = spec.channels.len();
        let n_samples: usize = n_capacity * n_channels;
        let mut buf: Vec<S> = Vec::new();
        let mut i: usize = 0;
        while i < n_samples
            invariant
                i <= n_samples,
                buf@.len() == i,
                forall|k: int| 0 <= k < i ==> buf@[k] == S::default_sp(),
            decreases n_samples - i,
        {
            buf.push(S::default_sample());
            i = i + 1;
        }
        let b = AudioBuffer { buf, spec: *spec, n_frames: 0, n_capacity };
        proof {
            assert forall|c: int, k: int|
                0 <= c < b@.channel_count() && 0 <= k < b@.capacity implies b@.planes[c][k]
                == S::default_sp() by {
                lemma_plane_bounds(n_capacity as int, spec.channels.count() as int, c);
            }
        }
        b
    }

    /// Instantiates an unused `AudioBuffer`: capacity 0, a sample rate of 0,
    /// and no audio channels. It does not allocate.
    pub fn unused() -> (b: AudioBuffer<S>)
        ensures
            b.well_formed(),
            b@.capacity == 0,
            b@.frames == 0,
            b@.spec.rate == 0,
            b@.channel_count() == 0,
    {
        AudioBuffer {
            buf: Vec::new(),
            spec: SignalSpec { rate: 0, channels: Channels::empty() },
            n_frames: 0,
            n_capacity: 0,
        }
    }

    /// Returns `true` if the `AudioBuffer` is unused, that is, has capacity
    /// 0.
    pub fn is_unused(&self) -> (r: bool)
        ensures
            r <==> self@.capacity == 0,
    {
        self.n_capacity == 0
    }

    /// Gets the signal specification for the buffer.
    pub fn spec(&self) -> (s: &SignalSpec)
        ensures
            *s == self@.spec,
    {
        &self.spec
    }

    /// Gets the total capacity of the buffer: the maximum number of frames
    /// it can store per channel.
    pub fn capacity(&self) -> (n: usize)
        ensures
            n == self@.capacity,
    {
        self.n_capacity
    }

    /// Gets the number of frames written to the buffer. This is also the
    /// number of valid samples in any one channel.
    pub fn frames(&self) -> (n: usize)
        ensures
            n == self@.frames,
    {
        self.n_frames
    }

    /// Clears all written frames from the buffer. This is a cheap operation
    /// and does not touch the underlying audio data.
    pub fn clear(&mut self)
        requires
            old(self).well_formed(),
        ensures
            final(self).well_formed(),
            final(self)@ == (AudioBufferView { frames: 0, ..old(self)@ }),
    {
        self.n_frames = 0;
    }

    /// Advances the frame cursor by `n_frames` (or to the full capacity if
    /// `n_frames` is absent) without modifying the underlying audio data,
    /// which the caller fills through another channel before committing.
    pub fn render_reserved(&mut self, n_frames: Option<usize>)
        requires
            old(self).well_formed(),
            n_frames matches Some(n) ==> old(self)@.frames + n <= old(self)@.capacity,
        ensures
            final(self).well_formed(),
            final(self)@ == (AudioBufferView {
                frames: match n_frames {
                    Some(n) => (old(self)@.frames + n) as nat,
                    None => old(self)@.capacity,
                },
                ..old(self)@
            }),
    {
        let n_reserved: usize = match n_frames {
            Some(n) => n,
            None => self.n_capacity - self.n_frames,
        };
        self.n_frames = self.n_frames + n_reserved;
    }

    /// Gets an immutable reference to all the written samples in the
    /// specified channel.
    pub fn chan(&self, channel: u8) -> (r: &[S])
        requires
            self.well_formed(),
            channel < self@.channel_count(),
        ensures
            r@ == self@.chan_sp(channel as int),
            r@.len() == self@.frames,
    {
        proof {
            self.lemma_well_formed();
            lemma_plane_bounds(
                self.n_capacity as int,
                self.spec.channels.count() as int,
                channel as int,
            );
        }
        let start: usize = channel as usize * self.n_capacity;
        let r = vstd::slice::slice_subrange(self.buf.as_slice(), start, start + self.n_frames);
        proof {
            assert(r@ =~= self@.chan_sp(channel as int));
        }
        r
    }

    /// The buffer's flat allocation: `channel_count` planes of `capacity`
    /// samples each, laid out plane after plane.
    pub closed spec fn flat(self) -> Seq<S> {
        self.buf@
    }

    /// The model's planes are exactly the planes carved out of the flat
    /// allocation.
    pub proof fn lemma_view_planes(self)
        requires
            self.well_formed(),
        ensures
            self.flat().len() == self@.capacity * self@.channel_count(),
            self@.planes == planes_of(self.flat(), self@.capacity, self@.channel_count()),
    {
    }

    /// Gets a mutable reference to all the written samples in the
    /// specified channel. Writing through it replaces that channel's valid
    /// samples within the flat allocation and leaves every other sample
    /// untouched.
    pub fn chan_mut(&mut self, channel: u8) -> (r: &mut [S])
        requires
            old(self).well_formed(),
            channel < old(self)@.channel_count(),
        ensures
            r@ == old(self)@.chan_sp(channel as int),
            r@.len() == old(self)@.frames,
            final(self)@.spec == old(self)@.spec,
            final(self)@.capacity == old(self)@.capacity,
            final(self)@.frames == old(self)@.frames,
            final(self).flat() == old(self).flat().subrange(
                0,
                channel as int * old(self)@.capacity as int,
            ) + (final(r)@ + old(self).flat().subrange(
                channel as int * old(self)@.capacity as int + old(self)@.frames as int,
                old(self).flat().len() as int,
            )),
            final(r)@.len() == old(self)@.frames ==> final(self).well_formed(),
    {
        proof {
            self.lemma_well_formed();
            lemma_plane_bounds(
                self.n_capacity as int,
                self.spec.channels.count() as int,
                channel as int,
            );
        }
        let ghost pre = self@;
        let ghost pre_buf = self.buf@;
        let start: usize = channel as usize * self.n_capacity;
        let frames: usize = self.n_frames;
        let s0 = self.buf.as_mut_slice();
        let (a, tail) = s0.split_at_mut(start);
        let (mid, rest) = tail.split_at_mut(frames);
        proof {
            assert(mid@ =~= pre.chan_sp(channel as int));
            assert(rest@ =~= pre_buf.subrange(start + frames, pre_buf.len() as int));
        }
        mid
    }

    /// Gets two mutable references to the written samples of two
    /// *different* channels simultaneously, for algorithms that mix a pair
    /// of channels. The two channels must be distinct: the two views are
    /// always disjoint, and handing out two views of one channel is
    /// impossible through this contract.
    pub fn chan_pair_mut(&mut self, first: u8, second: u8) -> (r: (&mut [S], &mut [S]))
        requires
            old(self).well_formed(),
            first < old(self)@.channel_count(),
            second < old(self)@.channel_count(),
            first != second,
        ensures
            r.0@ == old(self)@.chan_sp(first as int),
            r.1@ == old(self)@.chan_sp(second as int),
            r.0@.len() == old(self)@.frames,
            r.1@.len() == old(self)@.frames,
            final(self)@.spec == old(self)@.spec,
            final(self)@.capacity == old(self)@.capacity,
            final(self)@.frames == old(self)@.frames,
            first < second ==> final(self).flat() == old(self).flat().subrange(
                0,
                first as int * old(self)@.capacity as int,
            ) + (final(r.0)@ + (old(self).flat().subrange(
                first as int * old(self)@.capacity as int + old(self)@.frames as int,
                second as int * old(self)@.capacity as int,
            ) + (final(r.1)@ + old(self).flat().subrange(
                second as int * old(self)@.capacity as int + old(self)@.frames as int,
                old(self).flat().len() as int,
            )))),
            second < first ==> final(self).flat() == old(self).flat().subrange(
                0,
                second as int * old(self)@.capacity as int,
            ) + (final(r.1)@ + (old(self).flat().subrange(
                second as int * old(self)@.capacity as int + old(self)@.frames as int,
                first as int * old(self)@.capacity as int,
            ) + (final(r.0)@ + old(self).flat().subrange(
                first as int * old(self)@.capacity as int + old(self)@.frames as int,
                old(self).flat().len() as int,
            )))),
            final(r.0)@.len() == old(self)@.frames && final(r.1)@.len() == old(self)@.frames
                ==> final(self).well_formed(),
    {
        proof {
            self.lemma_well_formed();
            lemma_plane_bounds(
                self.n_capacity as int,
                self.spec.channels.count() as int,
                first as int,
            );
            lemma_plane_bounds(
                self.n_capacity as int,
                self.spec.channels.count() as int,
                second as int,
            );
            assert((first as int + 1) * self.n_capacity <= second as int * self.n_capacity
                || (second as int + 1) * self.n_capacity <= first as int * self.n_capacity)
                by (nonlinear_arith)
                requires
                    first != second,
                    self.n_capacity >= 0,
            ;
        }
        let ghost pre = self@;
        let ghost pre_buf = self.buf@;
        let frames: usize = self.n_frames;
        if first < second {
            let lo: usize = first as usize * self.n_capacity;
            let hi: usize = second as usize * self.n_capacity;
            proof {
                assert(lo + frames <= hi) by (nonlinear_arith)
                    requires
                        first < second,
                        frames <= self.n_capacity,
                        lo == first as int * self.n_capacity,
                        hi == second as int * self.n_capacity,
                ;
            }
            let s0 = self.buf.as_mut_slice();
            let (_a, t1) = s0.split_at_mut(lo);
            let (m1, t2) = t1.split_at_mut(frames);
            let (_b, t3) = t2.split_at_mut(hi - (lo + frames));
            proof {
                assert(m1@ =~= pre.chan_sp(first as int));
                assert(t3@ =~= pre_buf.subrange(hi as int, pre_buf.len() as int));
                assert(_b@ =~= pre_buf.subrange(lo + frames, hi as int));
            }
            let (m2, _rest) = t3.split_at_mut(frames);
            proof {
                assert(m2@ =~= pre.chan_sp(second as int));
                assert(_rest@ =~= pre_buf.subrange(hi + frames, pre_buf.len() as int));
            }
            (m1, m2)
        } else {
            let lo: usize = second as usize * self.n_capacity;
            let hi: usize = first as usize * self.n_capacity;
            proof {
                assert(lo + frames <= hi) by (nonlinear_arith)
                    requires
                        second < first,
                        frames <= self.n_capacity,
                        lo == second as int * self.n_capacity,
                        hi == first as int * self.n_capacity,
                ;
            }
            let s0 = self.buf.as_mut_slice();
            let (_a, t1) = s0.split_at_mut(lo);
            let (m2, t2) = t1.split_at_mut(frames);
            let (_b, t3) = t2.split_at_mut(hi - (lo + frames));
            proof {
                assert(m2@ =~= pre.chan_sp(second as int));
                assert(t3@ =~= pre_buf.subrange(hi as int, pre_buf.len() as int));
                assert(_b@ =~= pre_buf.subrange(lo + frames, hi as int));
            }
            let (m1, _rest) = t3.split_at_mut(frames);
            proof {
                assert(m1@ =~= pre.chan_sp(first as int));
                assert(_rest@ =~= pre_buf.subrange(hi + frames, pre_buf.len() as int));
            }
            (m1, m2)
        }
    }

    /// Gets immutable views of all audio planes (channels) within the
    /// buffer, sized to the written frame count.
    ///
    /// Note: this is not a cheap operation. For batch reads prefer `chan`
    /// to select a single plane.
    pub fn planes<'a>(&'a self) -> (r: AudioPlanes<'a, S>)
        requires
            self.well_formed(),
        ensures
            r@.len() == self@.channel_count(),
            forall|c: int| 0 <= c < self@.channel_count() ==> r@[c] == self@.chan_sp(c),
    {
        let n_channels: usize = self.spec.channels.len();
        let mut planes: Vec<&'a [S]> = Vec::new();
        let mut c: usize = 0;
        while c < n_channels
            invariant
                self.well_formed(),
                c <= n_channels,
                n_channels <= 32,
                n_channels == self@.channel_count(),
                planes@.len() == c,
                forall|d: int| 0 <= d < c ==> (#[trigger] planes@[d])@ == self@.chan_sp(d),
            decreases n_channels - c,
        {
            planes.push(self.chan(c as u8));
            c = c + 1;
        }
        AudioPlanes { planes }
    }

    /// Renders up to `n_frames` frames (or the remaining capacity if
    /// `n_frames` is absent) using the provided per-frame callback. The
    /// callback is invoked once per frame in increasing order, starting at
    /// the current cursor; it returns the frame's samples, one per channel,
    /// or a failure. Each successful invocation commits exactly one frame;
    /// the first failure terminates the render and leaves every frame
    /// committed before it in place (partial commit, no rollback).
    pub fn render<E, F: Fn(usize) -> Result<Vec<S>, E>>(
        &mut self,
        n_frames: Option<usize>,
        render: F,
    ) -> (r: Result<(), E>)
        requires
            old(self).well_formed(),
            old(self)@.frames + render_target(old(self)@, n_frames) <= old(self)@.capacity,
            forall|i: usize|
                old(self)@.frames <= i < old(self)@.frames + render_target(old(self)@, n_frames)
                    ==> call_requires(render, (i,)),
            forall|i: usize, v: Vec<S>|
                call_ensures(render, (i,), Result::<Vec<S>, E>::Ok(v)) ==> v@.len() == old(
                    self,
                )@.channel_count(),
        ensures
            final(self).well_formed(),
            r is Ok ==> render_committed(
                old(self)@,
                final(self)@,
                render_target(old(self)@, n_frames),
                render,
            ),
            r matches Err(e) ==> exists|m: nat|
                m < render_target(old(self)@, n_frames) && render_committed(
                    old(self)@,
                    final(self)@,
                    m,
                    render,
                ) && call_ensures(
                    render,
                    ((old(self)@.frames + m) as usize,),
                    Result::<Vec<S>, E>::Err(e),
                ),
    {
        let ghost pre = self@;
        proof {
            self.lemma_well_formed();
        }
        let n_channels: usize = self.spec.channels.len();
        let n_render: usize = match n_frames {
            Some(n) => n,
            None => self.n_capacity - self.n_frames,
        };
        let mut j: usize = 0;
        while j < n_render
            invariant
                self.well_formed(),
                j <= n_render,
                pre == old(self)@,
                pre.wf(),
                n_channels == pre.channel_count(),
                n_render == render_target(pre, n_frames),
                pre.frames + n_render <= pre.capacity,
                self@.frames == pre.frames + j,
                render_committed(pre, self@, j as nat, render),
                forall|i: usize|
                    pre.frames + j <= i < pre.frames + n_render ==> call_requires(render, (i,)),
                forall|i: usize, v: Vec<S>|
                    call_ensures(render, (i,), Result::<Vec<S>, E>::Ok(v)) ==> v@.len()
                        == pre.channel_count(),
            decreases n_render - j,
        {
            let idx = self.n_frames;
            match render(idx) {
                Ok(v) => {
                    let mut c: usize = 0;
                    while c < n_channels
                        invariant
                            self.well_formed(),
                            c <= n_channels,
                            pre == old(self)@,
                            pre.wf(),
                            n_channels == pre.channel_count(),
                            v@.len() == pre.channel_count(),
                            call_ensures(render, (idx,), Result::<Vec<S>, E>::Ok(v)),
                            j < n_render,
                            pre.frames + n_render <= pre.capacity,
                            idx == pre.frames + j,
                            self@.frames == pre.frames + j,
                            self@.spec == pre.spec,
                            self@.capacity == pre.capacity,
                            self@.planes.len() == pre.planes.len(),
                            forall|d: int|
                                0 <= d < self@.planes.len() ==> (#[trigger] self@.planes[
                                    d
                                ]).len() == pre.planes[d].len(),
                            forall|d: int, k: int|
                                #![trigger self@.planes[d][k]]
                                0 <= d < pre.planes.len() && 0 <= k < pre.planes[d].len() && !(
                                pre.frames <= k <= pre.frames + j) ==> self@.planes[d][k]
                                    == pre.planes[d][k],
                            forall|jj: int|
                                0 <= jj < j ==> #[trigger] rendered_frame(pre, self@, jj, render),
                            forall|d: int|
                                0 <= d < c ==> #[trigger] self@.planes[d][idx as int] == v@[d],
                            forall|d: int|
                                c <= d < pre.planes.len() ==> #[trigger] self@.planes[d][idx as int]
                                    == pre.planes[d][idx as int],
                        decreases n_channels - c,
                    {
                        proof {
                            lemma_plane_bounds(
                                self.n_capacity as int,
                                self.spec.channels.count() as int,
                                c as int,
                            );
                        }
                        let pos: usize = c * self.n_capacity + idx;
                        let ghost prev = self@;
                        let ghost prev_buf = self.buf@;
                        let value: S = v[c];
                        self.buf[pos] = value;
                        proof {
                            lemma_planes_of_update(
                                prev_buf,
                                self.n_capacity as nat,
                                self.spec.channels.count(),
                                c as int,
                                idx as int,
                                value,
                            );
                            assert forall|jj: int| 0 <= jj < j implies #[trigger] rendered_frame(
                                pre,
                                self@,
                                jj,
                                render,
                            ) by {
                                lemma_rendered_frame_stable(pre, prev, self@, jj, render);
                            }
                        }
                        c = c + 1;
                    }
                    let ghost commit = self@;
                    self.n_frames = self.n_frames + 1;
                    proof {
                        assert(self@.planes =~= commit.planes);
                        assert(call_ensures(
                            render,
                            (((pre.frames + j as int) as usize),),
                            Result::<Vec<S>, E>::Ok(v),
                        ));
                        assert(rendered_frame(pre, self@, j as int, render));
                        assert forall|jj: int| 0 <= jj <= j implies #[trigger] rendered_frame(
                            pre,
                            self@,
                            jj,
                            render,
                        ) by {
                            if jj < j {
                                lemma_rendered_frame_stable(pre, commit, self@, jj, render);
                            }
                        }
                        assert(render_committed(pre, self@, (j + 1) as nat, render));
                    }
                    j = j + 1;
                },
                Err(e) => {
                    proof {
                        assert(render_committed(pre, self@, j as nat, render));
                        assert(((pre.frames + j as nat) as usize) == idx);
                        assert(call_ensures(
                            render,
                            (((pre.frames + j as nat) as usize),),
                            Result::<Vec<S>, E>::Err(e),
                        ));
                    }
                    return Err(e);
                },
            }
        }
        Ok(())
    }

    /// Clears, and then renders the entire buffer using the fill callback.
    /// This is a convenience wrapper around `clear` and `render` and
    /// exhibits the same partial-commit behaviour as `render`.
    pub fn fill<E, F: Fn(usize) -> Result<Vec<S>, E>>(&mut self, fill: F) -> (r: Result<(), E>)
        requires
            old(self).well_formed(),
            forall|i: usize| i < old(self)@.capacity ==> call_requires(fill, (i,)),
            forall|i: usize, v: Vec<S>|
                call_ensures(fill, (i,), Result::<Vec<S>, E>::Ok(v)) ==> v@.len() == old(
                    self,
                )@.channel_count(),
        ensures
            final(self).well_formed(),
            r is Ok ==> render_committed(
                cleared(old(self)@),
                final(self)@,
                old(self)@.capacity,
                fill,
            ),
            r matches Err(e) ==> exists|m: nat|
                m < old(self)@.capacity && render_committed(
                    cleared(old(self)@),
                    final(self)@,
                    m,
                    fill,
                ) && call_ensures(fill, (m as usize,), Result::<Vec<S>, E>::Err(e)),
    {
        self.clear();
        let ghost cpre = self@;
        let r = self.render(None, fill);
        proof {
            if r is Err {
                let e = r->Err_0;
                let m = choose|m: nat|
                    m < render_target(cpre, None) && render_committed(cpre, self@, m, fill)
                        && call_ensures(
                        fill,
                        ((cpre.frames + m) as usize,),
                        Result::<Vec<S>, E>::Err(e),
                    );
                assert(((cpre.frames + m) as usize) == (m as usize));
                assert(m < old(self)@.capacity && render_committed(
                    cleared(old(self)@),
                    self@,
                    m,
                    fill,
                ) && call_ensures(fill, (m as usize,), Result::<Vec<S>, E>::Err(e)));
            }
        }
        r
    }

    /// Gets owned, dense copies of all audio planes (channels) within the
    /// buffer for batch mutation; `store_planes` writes them back.
    ///
    /// Note: this is not a cheap operation. Generally speaking it is
    /// almost always better to use `render`, `fill`, `chan_mut`, or
    /// `chan_pair_mut` to mutate the buffer.
    pub fn planes_mut(&self) -> (r: AudioPlanesMut<S>)
        requires
            self.well_formed(),
        ensures
            r.planes@.len() == self@.channel_count(),
            forall|c: int|
                0 <= c < self@.channel_count() ==> (#[trigger] r.planes@[c])@ == self@.chan_sp(c),
    {
        let n_channels: usize = self.spec.channels.len();
        let mut planes: Vec<Vec<S>> = Vec::new();
        let mut c: usize = 0;
        while c < n_channels
            invariant
                self.well_formed(),
                c <= n_channels,
                n_channels <= 32,
                n_channels == self@.channel_count(),
                planes@.len() == c,
                forall|d: int| 0 <= d < c ==> (#[trigger] planes@[d])@ == self@.chan_sp(d),
            decreases n_channels - c,
        {
            planes.push(vstd::slice::slice_to_vec(self.chan(c as u8)));
            c = c + 1;
        }
        AudioPlanesMut { planes }
    }

    /// Writes a set of planes obtained from `planes_mut` back into the
    /// buffer: each channel's valid samples are replaced by the given
    /// plane, and the stale region past the cursor is untouched.
    pub fn store_planes(&mut self, planes: &AudioPlanesMut<S>)
        requires
            old(self).well_formed(),
            planes.planes@.len() == old(self)@.channel_count(),
            forall|c: int|
                0 <= c < planes.planes@.len() ==> (#[trigger] planes.planes@[c])@.len() == old(
                    self,
                )@.frames,
        ensures
            final(self).well_formed(),
            final(self)@.spec == old(self)@.spec,
            final(self)@.capacity == old(self)@.capacity,
            final(self)@.frames == old(self)@.frames,
            final(self)@.planes.len() == old(self)@.planes.len(),
            forall|c: int, k: int|
                #![trigger final(self)@.planes[c][k]]
                0 <= c < old(self)@.planes.len() && 0 <= k < old(self)@.frames
                    ==> final(self)@.planes[c][k] == planes.planes@[c]@[k],
            forall|c: int, k: int|
                #![trigger final(self)@.planes[c][k]]
                0 <= c < old(self)@.planes.len() && old(self)@.frames <= k < old(
                    self,
                )@.planes[c].len() ==> final(self)@.planes[c][k] == old(self)@.planes[c][k],
    {
        let ghost pre = self@;
        proof {
            self.lemma_well_formed();
        }
        let n_channels: usize = self.spec.channels.len();
        let n_frames: usize = self.n_frames;
        let mut c: usize = 0;
        while c < n_channels
            invariant
                self.well_formed(),
                self@.wf(),
                pre == old(self)@,
                pre.wf(),
                c <= n_channels,
                n_channels == pre.channel_count(),
                n_frames == pre.frames,
                planes.planes@.len() == pre.channel_count(),
                forall|d: int|
                    0 <= d < planes.planes@.len() ==> (#[trigger] planes.planes@[d])@.len()
                        == pre.frames,
                self@.spec == pre.spec,
                self@.capacity == pre.capacity,
                self@.frames == pre.frames,
                self@.planes.len() == pre.planes.len(),
                forall|d: int, k: int|
                    #![trigger self@.planes[d][k]]
                    0 <= d < pre.planes.len() && 0 <= k < pre.frames && d < c ==> self@.planes[d][k]
                        == planes.planes@[d]@[k],
                forall|d: int, k: int|
                    #![trigger self@.planes[d][k]]
                    0 <= d < pre.planes.len() && 0 <= k < pre.frames && c <= d ==> self@.planes[d][
                        k
                    ] == pre.planes[d][k],
                forall|d: int, k: int|
                    #![trigger self@.planes[d][k]]
                    0 <= d < pre.planes.len() && pre.frames <= k < pre.planes[d].len()
                        ==> self@.planes[d][k] == pre.planes[d][k],
            decreases n_channels - c,
        {
            let mut k: usize = 0;
            while k < n_frames
                invariant
                    self.well_formed(),
                    self@.wf(),
                    pre == old(self)@,
                    pre.wf(),
                    c < n_channels,
                    k <= n_frames,
                    n_channels == pre.channel_count(),
                    n_frames == pre.frames,
                    planes.planes@.len() == pre.channel_count(),
                    forall|d: int|
                        0 <= d < planes.planes@.len() ==> (#[trigger] planes.planes@[d])@.len()
                            == pre.frames,
                    self@.spec == pre.spec,
                    self@.capacity == pre.capacity,
                    self@.frames == pre.frames,
                    self@.planes.len() == pre.planes.len(),
                    forall|d: int, kk: int|
                        #![trigger self@.planes[d][kk]]
                        0 <= d < pre.planes.len() && 0 <= kk < pre.frames && (d < c || (d == c && kk
                            < k)) ==> self@.planes[d][kk] == planes.planes@[d]@[kk],
                    forall|d: int, kk: int|
                        #![trigger self@.planes[d][kk]]
                        0 <= d < pre.planes.len() && 0 <= kk < pre.frames && !(d < c || (d == c
                            && kk < k)) ==> self@.planes[d][kk] == pre.planes[d][kk],
                    forall|d: int, kk: int|
                        #![trigger self@.planes[d][kk]]
                        0 <= d < pre.planes.len() && pre.frames <= kk < pre.planes[d].len()
                            ==> self@.planes[d][kk] == pre.planes[d][kk],
                decreases n_frames - k,
            {
                proof {
                    lemma_plane_bounds(
                        self.n_capacity as int,
                        self.spec.channels.count() as int,
                        c as int,
                    );
                }
                let pos: usize = c * self.n_capacity + k;
                let ghost prev_buf = self.buf@;
                let value: S = planes.planes[c][k];
                self.buf[pos] = value;
                proof {
                    lemma_planes_of_update(
                        prev_buf,
                        self.n_capacity as nat,
                        self.spec.channels.count(),
                        c as int,
                        k as int,
                        value,
                    );
                    self.lemma_well_formed();
                }
                k = k + 1;
            }
            c = c + 1;
        }
    }

    /// Transforms every written sample in the signal using the
    /// transformation function provided. No order is guaranteed in which
    /// the samples are transformed, and samples past the written region are
    /// never read or written.
    pub fn transform<F: Fn(S) -> S>(&mut self, f: F)
        requires
            old(self).well_formed(),
            forall|x: S| call_requires(f, (x,)),
        ensures
            final(self).well_formed(),
            final(self)@.spec == old(self)@.spec,
            final(self)@.capacity == old(self)@.capacity,
            final(self)@.frames == old(self)@.frames,
            final(self)@.planes.len() == old(self)@.planes.len(),
            forall|c: int, k: int|
                #![trigger final(self)@.planes[c][k]]
                0 <= c < old(self)@.planes.len() && 0 <= k < old(self)@.frames ==> call_ensures(
                    f,
                    (old(self)@.planes[c][k],),
                    final(self)@.planes[c][k],
                ),
            forall|c: int, k: int|
                #![trigger final(self)@.planes[c][k]]
                0 <= c < old(self)@.planes.len() && old(self)@.frames <= k < old(
                    self,
                )@.planes[c].len() ==> final(self)@.planes[c][k] == old(self)@.planes[c][k],
    {
        let ghost pre = self@;
        proof {
            self.lemma_well_formed();
        }
        let n_channels: usize = self.spec.channels.len();
        let n_frames: usize = self.n_frames;
        let mut c: usize = 0;
        while c < n_channels
            invariant
                self.well_formed(),
                self@.wf(),
                pre == old(self)@,
                pre.wf(),
                c <= n_channels,
                n_channels == pre.channel_count(),
                n_frames == pre.frames,
                forall|x: S| call_requires(f, (x,)),
                self@.spec == pre.spec,
                self@.capacity == pre.capacity,
                self@.frames == pre.frames,
                self@.planes.len() == pre.planes.len(),
                forall|d: int, k: int|
                    #![trigger self@.planes[d][k]]
                    0 <= d < c && 0 <= k < pre.frames ==> call_ensures(
                        f,
                        (pre.planes[d][k],),
                        self@.planes[d][k],
                    ),
                forall|d: int, k: int|
                    #![trigger self@.planes[d][k]]
                    c <= d < pre.planes.len() && 0 <= k < pre.frames ==> self@.planes[d][k]
                        == pre.planes[d][k],
                forall|d: int, k: int|
                    #![trigger self@.planes[d][k]]
                    0 <= d < pre.planes.len() && pre.frames <= k < pre.planes[d].len()
                        ==> self@.planes[d][k] == pre.planes[d][k],
            decreases n_channels - c,
        {
            proof {
                lemma_plane_bounds(
                    self.n_capacity as int,
                    self.spec.channels.count() as int,
                    c as int,
                );
            }
            let mut k: usize = 0;
            while k < n_frames
                invariant
                    self.well_formed(),
                    self@.wf(),
                    pre == old(self)@,
                    pre.wf(),
                    c < n_channels,
                    k <= n_frames,
                    n_channels == pre.channel_count(),
                    n_frames == pre.frames,
                    forall|x: S| call_requires(f, (x,)),
                    self@.spec == pre.spec,
                    self@.capacity == pre.capacity,
                    self@.frames == pre.frames,
                    self@.planes.len() == pre.planes.len(),
                    forall|d: int, kk: int|
                        #![trigger self@.planes[d][kk]]
                        0 <= d < pre.planes.len() && 0 <= kk < pre.frames && (d < c || (d == c && kk
                            < k)) ==> call_ensures(f, (pre.planes[d][kk],), self@.planes[d][kk]),
                    forall|d: int, kk: int|
                        #![trigger self@.planes[d][kk]]
                        0 <= d < pre.planes.len() && 0 <= kk < pre.frames && !(d < c || (d == c
                            && kk < k)) ==> self@.planes[d][kk] == pre.planes[d][kk],
                    forall|d: int, kk: int|
                        #![trigger self@.planes[d][kk]]
                        0 <= d < pre.planes.len() && pre.frames <= kk < pre.planes[d].len()
                            ==> self@.planes[d][kk] == pre.planes[d][kk],
                decreases n_frames - k,
            {
                proof {
                    lemma_plane_bounds(
                        self.n_capacity as int,
                        self.spec.channels.count() as int,
                        c as int,
                    );
                }
                let pos: usize = c * self.n_capacity + k;
                let ghost prev_buf = self.buf@;
                proof {
                    assert(self@.planes[c as int][k as int] == self.buf@[pos as int]);
                }
                let s: S = self.buf[pos];
                let t: S = f(s);
                self.buf[pos] = t;
                proof {
                    lemma_planes_of_update(
                        prev_buf,
                        self.n_capacity as nat,
                        self.spec.channels.count(),
                        c as int,
                        k as int,
                        t,
                    );
                    self.lemma_well_formed();
                }
                k = k + 1;
            }
            c = c + 1;
        }
    }

    /// Converts the contents of this buffer into an equivalent destination
    /// buffer of a different sample kind: every valid sample is rescaled
    /// through the canonical level. The two buffers must be equivalent
    /// (identical frame count, capacity, and signal specification).
    #[allow(unused_variables)]
    pub fn convert<T: Sample>(&self, dest: &mut AudioBuffer<T>, dither: Dither)
        requires
            self.well_formed(),
            old(dest).well_formed(),
            old(dest)@.frames == self@.frames,
            old(dest)@.capacity == self@.capacity,
            old(dest)@.spec == self@.spec,
        ensures
            final(dest).well_formed(),
            final(dest)@.spec == old(dest)@.spec,
            final(dest)@.capacity == old(dest)@.capacity,
            final(dest)@.frames == old(dest)@.frames,
            final(dest)@.planes.len() == old(dest)@.planes.len(),
            forall|c: int, k: int|
                #![trigger final(dest)@.planes[c][k]]
                0 <= c < self@.planes.len() && 0 <= k < self@.frames ==> final(dest)@.planes[c][k]
                    == convert_sp::<S, T>(self@.planes[c][k]),
            forall|c: int, k: int|
                #![trigger final(dest)@.planes[c][k]]
                0 <= c < self@.planes.len() && self@.frames <= k < self@.planes[c].len()
                    ==> final(dest)@.planes[c][k] == old(dest)@.planes[c][k],
    {
        let ghost dpre = dest@;
        proof {
            self.lemma_well_formed();
            old(dest).lemma_well_formed();
        }
        let n_channels: usize = self.spec.channels.len();
        let n_frames: usize = self.n_frames;
        let mut c: usize = 0;
        while c < n_channels
            invariant
                self.well_formed(),
                dest.well_formed(),
                dest@.wf(),
                dpre == old(dest)@,
                self@.wf(),
                dpre.wf(),
                c <= n_channels,
                n_channels == self@.channel_count(),
                n_frames == self@.frames,
                dpre.frames == self@.frames,
                dpre.capacity == self@.capacity,
                dpre.spec == self@.spec,
                dest@.spec == dpre.spec,
                dest@.capacity == dpre.capacity,
                dest@.frames == dpre.frames,
                dest@.planes.len() == dpre.planes.len(),
                forall|d: int, k: int|
                    #![trigger dest@.planes[d][k]]
                    0 <= d < self@.planes.len() && 0 <= k < self@.frames && d < c ==> dest@.planes[
                        d
                    ][k] == convert_sp::<S, T>(self@.planes[d][k]),
                forall|d: int, k: int|
                    #![trigger dest@.planes[d][k]]
                    0 <= d < self@.planes.len() && 0 <= k < self@.frames && c <= d
                        ==> dest@.planes[d][k] == dpre.planes[d][k],
                forall|d: int, k: int|
                    #![trigger dest@.planes[d][k]]
                    0 <= d < self@.planes.len() && self@.frames <= k < self@.planes[d].len()
                        ==> dest@.planes[d][k] == dpre.planes[d][k],
            decreases n_channels - c,
        {
            let mut k: usize = 0;
            while k < n_frames
                invariant
                    self.well_formed(),
                    dest.well_formed(),
                    dest@.wf(),
                    dpre == old(dest)@,
                    self@.wf(),
                    dpre.wf(),
                    c < n_channels,
                    k <= n_frames,
                    n_channels == self@.channel_count(),
                    n_frames == self@.frames,
                    dpre.frames == self@.frames,
                    dpre.capacity == self@.capacity,
                    dpre.spec == self@.spec,
                    dest@.spec == dpre.spec,
                    dest@.capacity == dpre.capacity,
                    dest@.frames == dpre.frames,
                    dest@.planes.len() == dpre.planes.len(),
                    forall|d: int, kk: int|
                        #![trigger dest@.planes[d][kk]]
                        0 <= d < self@.planes.len() && 0 <= kk < self@.frames && (d < c || (d == c
                            && kk < k)) ==> dest@.planes[d][kk] == convert_sp::<S, T>(
                            self@.planes[d][kk],
                        ),
                    forall|d: int, kk: int|
                        #![trigger dest@.planes[d][kk]]
                        0 <= d < self@.planes.len() && 0 <= kk < self@.frames && !(d < c || (d == c
                            && kk < k)) ==> dest@.planes[d][kk] == dpre.planes[d][kk],
                    forall|d: int, kk: int|
                        #![trigger dest@.planes[d][kk]]
                        0 <= d < self@.planes.len() && self@.frames <= kk < self@.planes[d].len()
                            ==> dest@.planes[d][kk] == dpre.planes[d][kk],
                decreases n_frames - k,
            {
                proof {
                    lemma_plane_bounds(
                        self.n_capacity as int,
                        self.spec.channels.count() as int,
                        c as int,
                    );
                }
                let pos: usize = c * self.n_capacity + k;
                let ghost prev_buf = dest.buf@;
                let t: T = convert_sample::<S, T>(self.buf[pos]);
                dest.buf[pos] = t;
                proof {
                    lemma_planes_of_update(
                        prev_buf,
                        dest.n_capacity as nat,
                        dest.spec.channels.count(),
                        c as int,
                        k as int,
                        t,
                    );
                    assert(self@.planes[c as int][k as int] == self.buf@[pos as int]);
                    dest.lemma_well_formed();
                }
                k = k + 1;
            }
            c = c + 1;
        }
    }

    /// Makes an equivalent buffer of a different sample kind: same capacity
    /// and signal specification, zero-filled, with no frames written.
    pub fn make_equivalent<T: Sample>(&self) -> (r: AudioBuffer<T>)
        requires
            self.well_formed(),
        ensures
            r.well_formed(),
            r@.spec == self@.spec,
            r@.capacity == self@.capacity,
            r@.frames == 0,
            forall|c: int, k: int|
                0 <= c < r@.channel_count() && 0 <= k < r@.capacity ==> r@.planes[c][k]
                    == T::default_sp(),
    {
        proof {
            self.lemma_well_formed();
        }
        AudioBuffer::<T>::new(Duration::Frames(self.n_capacity as u64), &self.spec)
    }
}

/// `AudioBufferRef` is a type-erased reference to an `AudioBuffer` of
/// either supported interchange sample kind, letting downstream code be
/// generic over "some audio buffer". The closed set of kinds is matched
/// exhaustively only by the `*_ref` copy operations of `SampleBuffer`.
pub enum AudioBufferRef<'a> {
    /// A buffer of signed 16-bit samples.
    S16(&'a AudioBuffer<i16>),
    /// A buffer of signed 32-bit samples.
    S32(&'a AudioBuffer<i32>),
}

impl<'a> AudioBufferRef<'a> {
    /// The referenced buffer is well formed.
    pub open spec fn wf(self) -> bool {
        match self {
            AudioBufferRef::S16(b) => b.well_formed(),
            AudioBufferRef::S32(b) => b.well_formed(),
        }
    }

    /// The referenced buffer's signal specification.
    pub open spec fn spec_sp(self) -> SignalSpec {
        match self {
            AudioBufferRef::S16(b) => b@.spec,
            AudioBufferRef::S32(b) => b@.spec,
        }
    }

    /// The referenced buffer's capacity.
    pub open spec fn capacity_sp(self) -> nat {
        match self {
            AudioBufferRef::S16(b) => b@.capacity,
            AudioBufferRef::S32(b) => b@.capacity,
        }
    }

    /// The referenced buffer's valid frame count.
    pub open spec fn frames_sp(self) -> nat {
        match self {
            AudioBufferRef::S16(b) => b@.frames,
            AudioBufferRef::S32(b) => b@.frames,
        }
    }

    /// Gets the signal specification of the underlying buffer.
    pub fn spec(&self) -> (s: &SignalSpec)
        ensures
            *s == self.spec_sp(),
    {
        match self {
            AudioBufferRef::S16(b) => b.spec(),
            AudioBufferRef::S32(b) => b.spec(),
        }
    }

    /// Gets the capacity of the underlying buffer.
    pub fn capacity(&self) -> (n: usize)
        ensures
            n == self.capacity_sp(),
    {
        match self {
            AudioBufferRef::S16(b) => b.capacity(),
            AudioBufferRef::S32(b) => b.capacity(),
        }
    }
}

/// `AsAudioBufferRef` is implemented by the `AudioBuffer` kinds that may be
/// referenced type-erased in an `AudioBufferRef`.
pub trait AsAudioBufferRef {
    /// The signal specification the reference reports.
    spec fn ref_spec(&self) -> SignalSpec;

    /// The capacity the reference reports.
    spec fn ref_capacity(&self) -> nat;

    /// The reference is backed by a well-formed buffer.
    spec fn ref_wf(&self) -> bool;

    /// Borrows this buffer as a type-erased buffer reference.
    fn as_audio_buffer_ref(&self) -> (r: AudioBufferRef)
        ensures
            r.wf() == self.ref_wf(),
            r.spec_sp() == self.ref_spec(),
            r.capacity_sp() == self.ref_capacity(),
    ;
}

impl AsAudioBufferRef for AudioBuffer<i16> {
    open spec fn ref_spec(&self) -> SignalSpec {
        self@.spec
    }

    open spec fn ref_capacity(&self) -> nat {
        self@.capacity
    }

    open spec fn ref_wf(&self) -> bool {
        self.well_formed()
    }

    fn as_audio_buffer_ref(&self) -> (r: AudioBufferRef) {
        AudioBufferRef::S16(self)
    }
}

impl AsAudioBufferRef for AudioBuffer<i32> {
    open spec fn ref_spec(&self) -> SignalSpec {
        self@.spec
    }

    open spec fn ref_capacity(&self) -> nat {
        self@.capacity
    }

    open spec fn ref_wf(&self) -> bool {
        self.well_formed()
    }

    fn as_audio_buffer_ref(&self) -> (r: AudioBufferRef) {
        AudioBufferRef::S32(self)
    }
}

/// After a `clear` followed by a successful `render` of `k` frames, the
/// buffer holds exactly `k` frames, and every channel's valid prefix has
/// length exactly `k`, for any `k` up to the capacity.
pub proof fn lemma_clear_render_frames<S: Sample, E, F: Fn(usize) -> Result<Vec<S>, E>>(
    pre: AudioBufferView<S>,
    post: AudioBufferView<S>,
    k: nat,
    f: F,
)
    requires
        pre.wf(),
        k <= pre.capacity,
        render_committed(cleared(pre), post, k, f),
    ensures
        post.frames == k,
        forall|c: int| 0 <= c < post.planes.len() ==> (#[trigger] post.chan_sp(c)).len() == k,
{
    assert forall|c: int| 0 <= c < post.planes.len() implies (#[trigger] post.chan_sp(c)).len()
        == k by {
        assert(post.planes[c].len() == pre.planes[c].len());
    }
}

/// A `render` whose callback fails at relative frame `m` of a request for
/// `k` frames commits exactly the `m` frames rendered before the failure:
/// the cursor advances by `m` — not by zero, and not by `k`.
pub proof fn lemma_render_partial_commit<S: Sample, E, F: Fn(usize) -> Result<Vec<S>, E>>(
    pre: AudioBufferView<S>,
    post: AudioBufferView<S>,
    m: nat,
    k: nat,
    f: F,
)
    requires
        render_committed(pre, post, m, f),
        m < k,
    ensures
        post.frames == pre.frames + m,
        post.frames < pre.frames + k,
{
}

/// A capacity-0 buffer is the "unused" sentinel: it never holds a frame,
/// and every channel accessor on it yields an empty range.
pub proof fn lemma_unused_buffer_empty<S: Sample>(b: AudioBuffer<S>)
    requires
        b.well_formed(),
        b@.capacity == 0,
    ensures
        b@.frames == 0,
        forall|c: int| 0 <= c < b@.channel_count() ==> (#[trigger] b@.chan_sp(c)).len() == 0,
{
    b.lemma_well_formed();
}

/// Converting a buffer to an at-least-as-wide sample kind and back
/// reproduces every valid sample exactly, whatever the channel and frame.
pub proof fn lemma_buffer_round_trip<A: Sample, B: Sample>(
    src: AudioBufferView<A>,
    mid: AudioBufferView<B>,
    back: AudioBufferView<A>,
)
    requires
        B::canon_step() <= A::canon_step(),
        forall|c: int, k: int|
            #![trigger mid.planes[c][k]]
            0 <= c < src.planes.len() && 0 <= k < src.frames ==> mid.planes[c][k] == convert_sp::<
                A,
                B,
            >(src.planes[c][k]),
        forall|c: int, k: int|
            #![trigger back.planes[c][k]]
            0 <= c < src.planes.len() && 0 <= k < src.frames ==> back.planes[c][k] == convert_sp::<
                B,
                A,
            >(mid.planes[c][k]),
    ensures
        forall|c: int, k: int|
            #![trigger back.planes[c][k]]
            0 <= c < src.planes.len() && 0 <= k < src.frames ==> back.planes[c][k]
                == src.planes[c][k],
{
    assert forall|c: int, k: int|
        0 <= c < src.planes.len() && 0 <= k < src.frames implies #[trigger] back.planes[c][k]
        == src.planes[c][k] by {
        crate::sample::lemma_convert_round_trip::<A, B>(src.planes[c][k]);
    }
}

} // verus!
verus! {

/// The `Signal` trait is the protocol codecs and filters use to render and
/// transform contiguous buffers of audio data without knowing the storage
/// details. Its contracts speak of an abstract signal model; for
/// `AudioBuffer` that model is the buffer's own view.
pub trait Signal<S: Sample>: Sized {
    /// The signal's model.
    spec fn sig(&self) -> AudioBufferView<S>;

    /// The signal is in a usable state.
    spec fn sig_wf(&self) -> bool;

    /// Gets the number of frames written to the signal.
    fn frames(&self) -> (n: usize)
        requires
            self.sig_wf(),
        ensures
            n == self.sig().frames,
    ;

    /// Clears all written frames. The underlying audio data is untouched.
    fn clear(&mut self)
        requires
            old(self).sig_wf(),
        ensures
            final(self).sig_wf(),
            final(self).sig() == cleared(old(self).sig()),
    ;

    /// Gets an immutable reference to all the written samples in the
    /// specified channel.
    fn chan(&self, channel: u8) -> (r: &[S])
        requires
            self.sig_wf(),
            channel < self.sig().channel_count(),
        ensures
            r@ == self.sig().chan_sp(channel as int),
            r@.len() == self.sig().frames,
    ;

    /// Advances the frame cursor by `n_frames`, or to the full capacity if
    /// `n_frames` is absent, without modifying the underlying audio data.
    fn render_reserved(&mut self, n_frames: Option<usize>)
        requires
            old(self).sig_wf(),
            n_frames matches Some(n) ==> old(self).sig().frames + n <= old(self).sig().capacity,
        ensures
            final(self).sig_wf(),
            final(self).sig() == (AudioBufferView {
                frames: match n_frames {
                    Some(n) => (old(self).sig().frames + n) as nat,
                    None => old(self).sig().capacity,
                },
                ..old(self).sig()
            }),
    ;

    /// Renders up to `n_frames` frames with the per-frame callback,
    /// committing one frame per successful invocation and stopping at the
    /// first failure, which leaves the frames already committed in place.
    fn render<E, F: Fn(usize) -> Result<Vec<S>, E>>(
        &mut self,
        n_frames: Option<usize>,
        render: F,
    ) -> (r: Result<(), E>)
        requires
            old(self).sig_wf(),
            old(self).sig().frames + render_target(old(self).sig(), n_frames) <= old(
                self,
            ).sig().capacity,
            forall|i: usize|
                old(self).sig().frames <= i < old(self).sig().frames + render_target(
                    old(self).sig(),
                    n_frames,
                ) ==> call_requires(render, (i,)),
            forall|i: usize, v: Vec<S>|
                call_ensures(render, (i,), Result::<Vec<S>, E>::Ok(v)) ==> v@.len() == old(
                    self,
                ).sig().channel_count(),
        ensures
            final(self).sig_wf(),
            r is Ok ==> render_committed(
                old(self).sig(),
                final(self).sig(),
                render_target(old(self).sig(), n_frames),
                render,
            ),
            r matches Err(e) ==> exists|m: nat|
                m < render_target(old(self).sig(), n_frames) && render_committed(
                    old(self).sig(),
                    final(self).sig(),
                    m,
                    render,
                ) && call_ensures(
                    render,
                    ((old(self).sig().frames + m) as usize,),
                    Result::<Vec<S>, E>::Err(e),
                ),
    ;

    /// Clears, and then renders the entire signal using the fill callback,
    /// with the same partial-commit behaviour as `render`.
    fn fill<E, F: Fn(usize) -> Result<Vec<S>, E>>(&mut self, fill: F) -> (r: Result<(), E>)
        requires
            old(self).sig_wf(),
            forall|i: usize| i < old(self).sig().capacity ==> call_requires(fill, (i,)),
            forall|i: usize, v: Vec<S>|
                call_ensures(fill, (i,), Result::<Vec<S>, E>::Ok(v)) ==> v@.len() == old(
                    self,
                ).sig().channel_count(),
        ensures
            final(self).sig_wf(),
            r is Ok ==> render_committed(
                cleared(old(self).sig()),
                final(self).sig(),
                old(self).sig().capacity,
                fill,
            ),
            r matches Err(e) ==> exists|m: nat|
                m < old(self).sig().capacity && render_committed(
                    cleared(old(self).sig()),
                    final(self).sig(),
                    m,
                    fill,
                ) && call_ensures(fill, (m as usize,), Result::<Vec<S>, E>::Err(e)),
    ;

    /// Transforms every written sample with the provided function, in no
    /// guaranteed order; the region past the cursor is never touched.
    fn transform<F: Fn(S) -> S>(&mut self, f: F)
        requires
            old(self).sig_wf(),
            forall|x: S| call_requires(f, (x,)),
        ensures
            final(self).sig_wf(),
            final(self).sig().spec == old(self).sig().spec,
            final(self).sig().capacity == old(self).sig().capacity,
            final(self).sig().frames == old(self).sig().frames,
            final(self).sig().planes.len() == old(self).sig().planes.len(),
            forall|c: int, k: int|
                #![trigger final(self).sig().planes[c][k]]
                0 <= c < old(self).sig().planes.len() && 0 <= k < old(self).sig().frames
                    ==> call_ensures(
                    f,
                    (old(self).sig().planes[c][k],),
                    final(self).sig().planes[c][k],
                ),
            forall|c: int, k: int|
                #![trigger final(self).sig().planes[c][k]]
                0 <= c < old(self).sig().planes.len() && old(self).sig().frames <= k < old(
                    self,
                ).sig().planes[c].len() ==> final(self).sig().planes[c][k] == old(
                    self,
                ).sig().planes[c][k],
    ;
}

impl<S: Sample> Signal<S> for AudioBuffer<S> {
    open spec fn sig(&self) -> AudioBufferView<S> {
        self@
    }

    open spec fn sig_wf(&self) -> bool {
        self.well_formed()
    }

    fn frames(&self) -> usize {
        AudioBuffer::frames(self)
    }

    fn clear(&mut self) {
        AudioBuffer::clear(self)
    }

    fn chan(&self, channel: u8) -> &[S] {
        AudioBuffer::chan(self, channel)
    }

    fn render_reserved(&mut self, n_frames: Option<usize>) {
        AudioBuffer::render_reserved(self, n_frames)
    }

    fn render<E, F: Fn(usize) -> Result<Vec<S>, E>>(
        &mut self,
        n_frames: Option<usize>,
        render: F,
    ) -> Result<(), E> {
        let ghost pre = self@;
        let ghost g = render;
        let r = AudioBuffer::render(self, n_frames, render);
        proof {
            if r is Err {
                let e = r->Err_0;
                let m = choose|m: nat|
                    m < render_target(pre, n_frames) && render_committed(pre, self@, m, g)
                        && call_ensures(g, ((pre.frames + m) as usize,), Result::<Vec<S>, E>::Err(e));
                assert(old(self).sig() == pre);
                assert(self.sig() == self@);
                assert(m < render_target(old(self).sig(), n_frames) && render_committed(
                    old(self).sig(),
                    self.sig(),
                    m,
                    g,
                ) && call_ensures(
                    g,
                    ((old(self).sig().frames + m) as usize,),
                    Result::<Vec<S>, E>::Err(e),
                ));
            }
        }
        r
    }

    fn fill<E, F: Fn(usize) -> Result<Vec<S>, E>>(&mut self, fill: F) -> Result<(), E> {
        let ghost pre = self@;
        let ghost g = fill;
        let r = AudioBuffer::fill(self, fill);
        proof {
            if r is Err {
                let e = r->Err_0;
                let m = choose|m: nat|
                    m < pre.capacity && render_committed(cleared(pre), self@, m, g)
                        && call_ensures(g, (m as usize,), Result::<Vec<S>, E>::Err(e));
                assert(m < old(self).sig().capacity && render_committed(
                    cleared(old(self).sig()),
                    self.sig(),
                    m,
                    g,
                ) && call_ensures(g, (m as usize,), Result::<Vec<S>, E>::Err(e)));
            }
        }
        r
    }

    fn transform<F: Fn(S) -> S>(&mut self, f: F) {
        AudioBuffer::transform(self, f)
    }
}

/// The `ConvertibleAudioBuffer` trait provides facilities for converting
/// between differently typed, but equivalent, audio buffers. Two buffers
/// are equivalent when they have the same frame count, capacity, and
/// signal specification. Its contracts speak of the source's samples as
/// canonical levels, so they are independent of the source's sample kind.
pub trait ConvertibleAudioBuffer<T: Sample>: Sized {
    /// The source's model with every sample replaced by its canonical
    /// level.
    spec fn canon_sig(&self) -> AudioBufferView<nat>;

    /// The source is in a usable state.
    spec fn conv_wf(&self) -> bool;

    /// Converts the contents of this buffer into an equivalent destination
    /// buffer, rescaling every valid sample through the canonical level;
    /// the dither method is applied if the conversion is lossy.
    fn convert(&self, dest: &mut AudioBuffer<T>, dither: Dither)
        requires
            self.conv_wf(),
            old(dest).well_formed(),
            old(dest)@.frames == self.canon_sig().frames,
            old(dest)@.capacity == self.canon_sig().capacity,
            old(dest)@.spec == self.canon_sig().spec,
        ensures
            final(dest).well_formed(),
            final(dest)@.spec == old(dest)@.spec,
            final(dest)@.capacity == old(dest)@.capacity,
            final(dest)@.frames == old(dest)@.frames,
            final(dest)@.planes.len() == old(dest)@.planes.len(),
            forall|c: int, k: int|
                #![trigger final(dest)@.planes[c][k]]
                0 <= c < self.canon_sig().planes.len() && 0 <= k < self.canon_sig().frames
                    ==> final(dest)@.planes[c][k] == T::of_canon(self.canon_sig().planes[c][k]),
    ;

    /// Makes an equivalent zero-filled buffer of a different sample kind,
    /// with no frames written.
    fn make_equivalent<E: Sample>(&self) -> (r: AudioBuffer<E>)
        requires
            self.conv_wf(),
        ensures
            r.well_formed(),
            r@.spec == self.canon_sig().spec,
            r@.capacity == self.canon_sig().capacity,
            r@.frames == 0,
    ;
}

impl<T: Sample, F: Sample> ConvertibleAudioBuffer<T> for AudioBuffer<F> {
    open spec fn canon_sig(&self) -> AudioBufferView<nat> {
        AudioBufferView {
            spec: self@.spec,
            capacity: self@.capacity,
            frames: self@.frames,
            planes: Seq::new(
                self@.planes.len(),
                |c: int| Seq::new(self@.planes[c].len(), |k: int| self@.planes[c][k].canon_of()),
            ),
        }
    }

    open spec fn conv_wf(&self) -> bool {
        self.well_formed()
    }

    fn convert(&self, dest: &mut AudioBuffer<T>, dither: Dither) {
        proof {
            self.lemma_well_formed();
        }
        AudioBuffer::convert(self, dest, dither);
        proof {
            let cs = ConvertibleAudioBuffer::<T>::canon_sig(self);
            assert forall|c: int, k: int|
                0 <= c < cs.planes.len() && 0 <= k < cs.frames implies #[trigger] dest@.planes[c][k]
                == T::of_canon(cs.planes[c][k]) by {
                assert(cs.planes[c][k] == self@.planes[c][k].canon_of());
            }
        }
    }

    fn make_equivalent<E: Sample>(&self) -> AudioBuffer<E> {
        AudioBuffer::make_equivalent(self)
    }
}

} // verus!
