//! Signal descriptions: channel masks, named layouts, and signal
//! specifications.

use vstd::prelude::*;

verus! {

/// Front-left (left) or the Mono channel.
pub const FRONT_LEFT: u32 = 0x0000001;
/// Front-right (right) channel.
pub const FRONT_RIGHT: u32 = 0x0000002;
/// Front-centre (centre) channel.
pub const FRONT_CENTRE: u32 = 0x0000004;
/// Rear-left (surround rear left) channel.
pub const REAR_LEFT: u32 = 0x0000008;
/// Rear-centre (surround rear centre) channel.
pub const REAR_CENTRE: u32 = 0x0000010;
/// Rear-right (surround rear right) channel.
pub const REAR_RIGHT: u32 = 0x0000020;
/// Low frequency channel 1.
pub const LFE1: u32 = 0x0000040;
/// Front left-of-centre channel.
pub const FRONT_LEFT_CENTRE: u32 = 0x0000080;
/// Front right-of-centre channel.
pub const FRONT_RIGHT_CENTRE: u32 = 0x0000100;
/// Rear left-of-centre channel.
pub const REAR_LEFT_CENTRE: u32 = 0x0000200;
/// Rear right-of-centre channel.
pub const REAR_RIGHT_CENTRE: u32 = 0x0000400;
/// Front left-wide channel.
pub const FRONT_LEFT_WIDE: u32 = 0x0000800;
/// Front right-wide channel.
pub const FRONT_RIGHT_WIDE: u32 = 0x0001000;
/// Front left-high channel.
pub const FRONT_LEFT_HIGH: u32 = 0x0002000;
/// Front centre-high channel.
pub const FRONT_CENTRE_HIGH: u32 = 0x0004000;
/// Front right-high channel.
pub const FRONT_RIGHT_HIGH: u32 = 0x0008000;
/// Low frequency channel 2.
pub const LFE2: u32 = 0x0010000;
/// Side left (surround left) channel.
pub const SIDE_LEFT: u32 = 0x0020000;
/// Side right (surround right) channel.
pub const SIDE_RIGHT: u32 = 0x0040000;
/// Top centre channel.
pub const TOP_CENTRE: u32 = 0x0080000;
/// Top front-left channel.
pub const TOP_FRONT_LEFT: u32 = 0x0100000;
/// Top front-centre channel.
pub const TOP_FRONT_CENTRE: u32 = 0x0200000;
/// Top front-right channel.
pub const TOP_FRONT_RIGHT: u32 = 0x0400000;
/// Top rear-left channel.
pub const TOP_REAR_LEFT: u32 = 0x0800000;
/// Top rear-centre channel.
pub const TOP_REAR_CENTRE: u32 = 0x1000000;
/// Top rear-right channel.
pub const TOP_REAR_RIGHT: u32 = 0x2000000;

/// The number of set bits among the lowest `n` bits of `b`.
pub open spec fn pop_bits(b: nat, n: nat) -> nat
    decreases n,
{
    if n == 0 {
        0
    } else {
        b % 2 + pop_bits(b / 2, (n - 1) as nat)
    }
}

/// The number of set bits among the lowest `n` bits of a word never
/// exceeds `n`.
pub proof fn lemma_pop_bits_le(b: nat, n: nat)
    ensures
        pop_bits(b, n) <= n,
    decreases n,
{
    if n > 0 {
        lemma_pop_bits_le(b / 2, (n - 1) as nat);
    }
}

/// A zero word has no set bits.
pub proof fn lemma_pop_bits_zero(n: nat)
    ensures
        pop_bits(0, n) == 0,
    decreases n,
{
    if n > 0 {
        lemma_pop_bits_zero((n - 1) as nat);
    }
}

/// `Channels` is a bit mask of all channels contained in a signal.
///
/// The order of channels within a plane array always follows the bit order
/// of the mask's set bits, least-significant first.
#[derive(Copy, Clone, PartialEq, Eq, Structural, Debug)]
pub struct Channels {
    pub bits: u32,
}

impl Channels {
    /// The number of active channels in the mask.
    pub open spec fn count(self) -> nat {
        pop_bits(self.bits as nat, 32)
    }

    /// A mask with no channels set.
    pub fn empty() -> (c: Channels)
        ensures
            c.bits == 0,
            c.count() == 0,
    {
        proof {
            lemma_pop_bits_zero(32);
        }
        Channels { bits: 0 }
    }

    /// Makes a channel mask from a raw bit mask.
    pub fn new(bits: u32) -> (c: Channels)
        ensures
            c.bits == bits,
    {
        Channels { bits }
    }

    /// Gets the number of channels.
    pub fn len(&self) -> (n: usize)
        ensures
            n == self.count(),
            n <= 32,
    {
        proof {
            lemma_pop_bits_le(self.bits as nat, 32);
        }
        let mut b: u32 = self.bits;
        let mut n: usize = 0;
        let mut i: usize = 0;
        while i < 32
            invariant
                i <= 32,
                n <= i,
                n + pop_bits(b as nat, (32 - i) as nat) == pop_bits(self.bits as nat, 32),
            decreases 32 - i,
        {
            n = n + (b % 2) as usize;
            b = b / 2;
            i = i + 1;
        }
        n
    }
}

/// `Layout` describes common audio channel configurations.
#[derive(Copy, Clone, Debug)]
pub enum Layout {
    /// Single centre channel.
    Mono,
    /// Left and Right channels.
    Stereo,
    /// Left and Right channels with a single low-frequency channel.
    TwoPointOne,
    /// Front Left and Right, Rear Left and Right, and a single low-frequency
    /// channel.
    FivePointOne,
}

/// The canonical channel mask a layout expands to.
pub open spec fn layout_channels(layout: Layout) -> u32 {
    match layout {
        Layout::Mono => FRONT_LEFT,
        Layout::Stereo => FRONT_LEFT | FRONT_RIGHT,
        Layout::TwoPointOne => FRONT_LEFT | FRONT_RIGHT | LFE1,
        Layout::FivePointOne => FRONT_LEFT | FRONT_RIGHT | FRONT_CENTRE | REAR_LEFT | REAR_RIGHT
            | LFE1,
    }
}

impl Layout {
    /// Converts a channel `Layout` into a `Channels` bit mask.
    pub fn into_channels(self) -> (c: Channels)
        ensures
            c.bits == layout_channels(self),
    {
        match self {
            Layout::Mono => Channels { bits: FRONT_LEFT },
            Layout::Stereo => Channels { bits: FRONT_LEFT | FRONT_RIGHT },
            Layout::TwoPointOne => Channels { bits: FRONT_LEFT | FRONT_RIGHT | LFE1 },
            Layout::FivePointOne => Channels {
                bits: FRONT_LEFT | FRONT_RIGHT | FRONT_CENTRE | REAR_LEFT | REAR_RIGHT | LFE1,
            },
        }
    }
}

/// `SignalSpec` describes the characteristics of a signal.
#[derive(Copy, Clone, PartialEq, Eq, Structural, Debug)]
pub struct SignalSpec {
    /// The signal sampling rate in hertz (Hz).
    pub rate: u32,
    /// The channel assignments of the signal.
    pub channels: Channels,
}

impl SignalSpec {
    /// Makes a new signal specification from a rate and a channel mask.
    pub fn new(rate: u32, channels: Channels) -> (s: SignalSpec)
        ensures
            s.rate == rate,
            s.channels == channels,
    {
        SignalSpec { rate, channels }
    }

    /// Makes a new signal specification from a rate and a named layout.
    pub fn new_with_layout(rate: u32, layout: Layout) -> (s: SignalSpec)
        ensures
            s.rate == rate,
            s.channels.bits == layout_channels(layout),
    {
        SignalSpec { rate, channels: layout.into_channels() }
    }
}

/// A `Duration` indicates a span of time, measured in frames. It sizes a
/// buffer at construction time.
#[derive(Copy, Clone, Debug)]
pub enum Duration {
    /// The duration is expressed by an amount of frames.
    Frames(u64),
}

/// The frame count a duration denotes.
pub open spec fn duration_frames(duration: Duration) -> nat {
    match duration {
        Duration::Frames(frames) => frames as nat,
    }
}

} // verus!
