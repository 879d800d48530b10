//! Sample kinds and conversion between them.
//!
//! Every supported in-memory sample kind maps bijectively onto a *canonical
//! level*: an unsigned 32-bit value in which the sample's amplitude occupies
//! the high bits and the low bits are zero. Conversion between any two kinds
//! goes through the canonical level, so widening then narrowing by the same
//! or a larger width reproduces the original sample exactly.

#![allow(non_camel_case_types)]

use vstd::prelude::*;

verus! {

/// A helper for splitting a value into quotient and remainder by a positive
/// divisor.
pub proof fn lemma_div_mod_split(x: int, d: int, q: int, r: int)
    requires
        d > 0,
        0 <= r < d,
        x == q * d + r,
    ensures
        x / d == q,
        x % d == r,
{
    vstd::arithmetic::div_mod::lemma_fundamental_div_mod_converse_div(x, d, q, r);
    vstd::arithmetic::div_mod::lemma_fundamental_div_mod_converse_mod(x, d, q, r);
}

/// A `Sample` is a kind of numeric value an audio buffer can hold.
///
/// Each kind fixes a *canonical step* (a power of 256) and maps each of its
/// values onto a canonical 32-bit level that is a multiple of that step; the
/// mapping is exact and invertible on aligned levels.
pub trait Sample: Copy + Sized {
    /// The alignment of this kind's canonical levels: 2 to the number of
    /// amplitude bits this kind cannot represent.
    spec fn canon_step() -> nat;

    /// The canonical 32-bit level of this sample.
    spec fn canon_of(self) -> nat;

    /// The sample whose canonical level is the largest aligned level not
    /// above `c`.
    spec fn of_canon(c: nat) -> Self;

    /// The neutral value new buffers are filled with.
    spec fn default_sp() -> Self;

    /// Canonical levels are in range, aligned, and invert exactly.
    proof fn lemma_canon(self)
        ensures
            self.canon_of() < 0x100000000,
            self.canon_of() % Self::canon_step() == 0,
            Self::of_canon(self.canon_of()) == self,
    ;

    /// The canonical step is a power of 256 no larger than 2^24.
    proof fn lemma_step()
        ensures
            Self::canon_step() == 1 || Self::canon_step() == 0x100 || Self::canon_step()
                == 0x10000 || Self::canon_step() == 0x1000000,
    ;

    /// Mapping a level to a sample truncates the level to this kind's
    /// alignment.
    proof fn lemma_of_canon(c: nat)
        requires
            c < 0x100000000,
        ensures
            Self::of_canon(c).canon_of() == c - (c % Self::canon_step()),
    ;

    /// The neutral value used to zero-fill new buffers.
    fn default_sample() -> (s: Self)
        ensures
            s == Self::default_sp(),
    ;

    /// Computes this sample's canonical level.
    fn to_canon(self) -> (c: u32)
        ensures
            c as nat == self.canon_of(),
    ;

    /// Recovers the sample for a canonical level.
    fn from_canon(c: u32) -> (s: Self)
        ensures
            s == Self::of_canon(c as nat),
    ;
}

/// The sample of kind `T` a sample of kind `F` converts to: both share the
/// canonical level, up to truncation to `T`'s alignment.
pub open spec fn convert_sp<F: Sample, T: Sample>(x: F) -> T {
    T::of_canon(x.canon_of())
}

/// Converts a sample from kind `F` to kind `T` through the canonical level.
pub fn convert_sample<F: Sample, T: Sample>(x: F) -> (r: T)
    ensures
        r == convert_sp::<F, T>(x),
{
    proof {
        x.lemma_canon();
    }
    T::from_canon(x.to_canon())
}

/// Converting a sample to its own kind is the identity.
pub proof fn lemma_convert_identity<S: Sample>(x: S)
    ensures
        convert_sp::<S, S>(x) == x,
{
    x.lemma_canon();
}

/// Converting to a kind at least as wide and back is lossless: the original
/// sample is reproduced exactly.
pub proof fn lemma_convert_round_trip<F: Sample, T: Sample>(x: F)
    requires
        T::canon_step() <= F::canon_step(),
    ensures
        convert_sp::<T, F>(convert_sp::<F, T>(x)) == x,
{
    x.lemma_canon();
    F::lemma_step();
    T::lemma_step();
    let c = x.canon_of();
    // T's step divides F's step, so an F-aligned level is T-aligned too.
    assert(F::canon_step() % T::canon_step() == 0);
    assert(c % T::canon_step() == 0) by {
        let fs = F::canon_step() as int;
        let ts = T::canon_step() as int;
        let ci = c as int;
        lemma_div_mod_split(ci, fs, ci / fs, 0);
        assert(ci == (ci / fs) * fs);
        assert(fs == (fs / ts) * ts) by {
            lemma_div_mod_split(fs, ts, fs / ts, 0);
        }
        assert(ci == ((ci / fs) * (fs / ts)) * ts) by (nonlinear_arith)
            requires
                ci == (ci / fs) * fs,
                fs == (fs / ts) * ts,
        ;
        lemma_div_mod_split(ci, ts, (ci / fs) * (fs / ts), 0);
    }
    T::lemma_of_canon(c);
    let y = convert_sp::<F, T>(x);
    assert(y.canon_of() == c);
    assert(F::of_canon(c) == x);
}

/// Enumeration of dither algorithms, applied after a lossy conversion.
/// Only the no-op variant exists; real dithering strategies are an
/// extension point.
pub enum Dither {
    /// No dithering.
    NoOp,
}

/// An unsigned 24-bit sample, stored as its three little-endian bytes.
#[derive(Copy, Clone, PartialEq, Eq, Structural, Debug)]
pub struct u24 {
    /// The low byte.
    pub b0: u8,
    /// The middle byte.
    pub b1: u8,
    /// The high byte.
    pub b2: u8,
}

/// A signed 24-bit sample, stored as its three little-endian two's
/// complement bytes.
#[derive(Copy, Clone, PartialEq, Eq, Structural, Debug)]
pub struct i24 {
    /// The low byte.
    pub b0: u8,
    /// The middle byte.
    pub b1: u8,
    /// The high byte, holding the sign bit.
    pub b2: u8,
}

/// The unsigned 24-bit value three little-endian bytes encode.
pub open spec fn u24_val(b0: u8, b1: u8, b2: u8) -> nat {
    b0 as nat + b1 as nat * 0x100 + b2 as nat * 0x10000
}

/// A three-byte value decomposes uniquely into its bytes.
pub proof fn lemma_u24_decompose(b0: nat, b1: nat, b2: nat)
    requires
        b0 < 0x100,
        b1 < 0x100,
        b2 < 0x100,
    ensures
        b0 + b1 * 0x100 + b2 * 0x10000 < 0x1000000,
        (b0 + b1 * 0x100 + b2 * 0x10000) % 0x100 == b0,
        ((b0 + b1 * 0x100 + b2 * 0x10000) / 0x100) % 0x100 == b1,
        (b0 + b1 * 0x100 + b2 * 0x10000) / 0x10000 == b2,
{
    let d = b0 as int + b1 as int * 0x100 + b2 as int * 0x10000;
    lemma_div_mod_split(d, 0x100, b1 as int + b2 as int * 0x100, b0 as int);
    lemma_div_mod_split(b1 as int + b2 as int * 0x100, 0x100, b2 as int, b1 as int);
    lemma_div_mod_split(d, 0x10000, b2 as int, b0 as int + b1 as int * 0x100);
}

impl u24 {
    /// Makes an unsigned 24-bit sample from the low 24 bits of a word.
    pub fn new(v: u32) -> (s: u24)
        requires
            v < 0x1000000,
        ensures
            s.value_sp() == v,
    {
        proof {
            lemma_u24_decompose((v % 0x100) as nat, ((v / 0x100) % 0x100) as nat, (v
                / 0x10000) as nat);
            vstd::arithmetic::div_mod::lemma_fundamental_div_mod(v as int, 0x100);
            vstd::arithmetic::div_mod::lemma_fundamental_div_mod(v as int / 0x100, 0x100);
            vstd::arithmetic::div_mod::lemma_fundamental_div_mod(v as int, 0x10000);
        }
        u24 { b0: (v % 0x100) as u8, b1: ((v / 0x100) % 0x100) as u8, b2: (v / 0x10000) as u8 }
    }

    /// The numeric value of this sample.
    pub open spec fn value_sp(self) -> nat {
        u24_val(self.b0, self.b1, self.b2)
    }

    /// Gets the numeric value of this sample.
    pub fn value(self) -> (v: u32)
        ensures
            v == self.value_sp(),
            v < 0x1000000,
    {
        self.b0 as u32 + self.b1 as u32 * 0x100 + self.b2 as u32 * 0x10000
    }
}

impl i24 {
    /// Makes a signed 24-bit sample.
    pub fn new(v: i32) -> (s: i24)
        requires
            -0x800000 <= v < 0x800000,
        ensures
            s.value_sp() == v,
    {
        let u: u32 = if v >= 0 {
            v as u32
        } else {
            (v + 0x1000000) as u32
        };
        proof {
            lemma_u24_decompose((u % 0x100) as nat, ((u / 0x100) % 0x100) as nat, (u
                / 0x10000) as nat);
            vstd::arithmetic::div_mod::lemma_fundamental_div_mod(u as int, 0x100);
            vstd::arithmetic::div_mod::lemma_fundamental_div_mod(u as int / 0x100, 0x100);
            vstd::arithmetic::div_mod::lemma_fundamental_div_mod(u as int, 0x10000);
        }
        i24 { b0: (u % 0x100) as u8, b1: ((u / 0x100) % 0x100) as u8, b2: (u / 0x10000) as u8 }
    }

    /// The numeric value of this sample: the two's complement reading of its
    /// three bytes.
    pub open spec fn value_sp(self) -> int {
        if u24_val(self.b0, self.b1, self.b2) >= 0x800000 {
            u24_val(self.b0, self.b1, self.b2) - 0x1000000
        } else {
            u24_val(self.b0, self.b1, self.b2) as int
        }
    }

    /// Gets the numeric value of this sample.
    pub fn value(self) -> (v: i32)
        ensures
            v == self.value_sp(),
            -0x800000 <= v < 0x800000,
    {
        let u: u32 = self.b0 as u32 + self.b1 as u32 * 0x100 + self.b2 as u32 * 0x10000;
        if u >= 0x800000 {
            u as i32 - 0x1000000
        } else {
            u as i32
        }
    }
}

impl Sample for u8 {
    open spec fn canon_step() -> nat {
        0x1000000
    }

    open spec fn canon_of(self) -> nat {
        self as nat * 0x1000000
    }

    open spec fn of_canon(c: nat) -> u8 {
        (c / 0x1000000) as u8
    }

    open spec fn default_sp() -> u8 {
        0u8
    }

    proof fn lemma_canon(self) {
        lemma_div_mod_split(self as int * 0x1000000, 0x1000000, self as int, 0);
    }

    proof fn lemma_step() {
    }

    proof fn lemma_of_canon(c: nat) {
        vstd::arithmetic::div_mod::lemma_fundamental_div_mod(c as int, 0x1000000);
        let q = c / 0x1000000;
        assert(q < 0x100);
        lemma_div_mod_split(q as int * 0x1000000, 0x1000000, q as int, 0);
    }

    fn default_sample() -> u8 {
        0u8
    }

    fn to_canon(self) -> u32 {
        self as u32 * 0x1000000
    }

    fn from_canon(c: u32) -> u8 {
        (c / 0x1000000) as u8
    }
}

impl Sample for i8 {
    open spec fn canon_step() -> nat {
        0x1000000
    }

    open spec fn canon_of(self) -> nat {
        ((self as int + 128) * 0x1000000) as nat
    }

    open spec fn of_canon(c: nat) -> i8 {
        (c / 0x1000000 - 128) as i8
    }

    open spec fn default_sp() -> i8 {
        0i8
    }

    proof fn lemma_canon(self) {
        lemma_div_mod_split((self as int + 128) * 0x1000000, 0x1000000, self as int + 128, 0);
    }

    proof fn lemma_step() {
    }

    proof fn lemma_of_canon(c: nat) {
        vstd::arithmetic::div_mod::lemma_fundamental_div_mod(c as int, 0x1000000);
        let q = c / 0x1000000;
        assert(q < 0x100);
        lemma_div_mod_split(q as int * 0x1000000, 0x1000000, q as int, 0);
    }

    fn default_sample() -> i8 {
        0i8
    }

    fn to_canon(self) -> u32 {
        ((self as i32) + 128) as u32 * 0x1000000
    }

    fn from_canon(c: u32) -> i8 {
        ((c / 0x1000000) as i32 - 128) as i8
    }
}

impl Sample for u16 {
    open spec fn canon_step() -> nat {
        0x10000
    }

    open spec fn canon_of(self) -> nat {
        self as nat * 0x10000
    }

    open spec fn of_canon(c: nat) -> u16 {
        (c / 0x10000) as u16
    }

    open spec fn default_sp() -> u16 {
        0u16
    }

    proof fn lemma_canon(self) {
        lemma_div_mod_split(self as int * 0x10000, 0x10000, self as int, 0);
    }

    proof fn lemma_step() {
    }

    proof fn lemma_of_canon(c: nat) {
        vstd::arithmetic::div_mod::lemma_fundamental_div_mod(c as int, 0x10000);
        let q = c / 0x10000;
        assert(q < 0x10000);
        lemma_div_mod_split(q as int * 0x10000, 0x10000, q as int, 0);
    }

    fn default_sample() -> u16 {
        0u16
    }

    fn to_canon(self) -> u32 {
        self as u32 * 0x10000
    }

    fn from_canon(c: u32) -> u16 {
        (c / 0x10000) as u16
    }
}

impl Sample for i16 {
    open spec fn canon_step() -> nat {
        0x10000
    }

    open spec fn canon_of(self) -> nat {
        ((self as int + 0x8000) * 0x10000) as nat
    }

    open spec fn of_canon(c: nat) -> i16 {
        (c / 0x10000 - 0x8000) as i16
    }

    open spec fn default_sp() -> i16 {
        0i16
    }

    proof fn lemma_canon(self) {
        lemma_div_mod_split((self as int + 0x8000) * 0x10000, 0x10000, self as int + 0x8000, 0);
    }

    proof fn lemma_step() {
    }

    proof fn lemma_of_canon(c: nat) {
        vstd::arithmetic::div_mod::lemma_fundamental_div_mod(c as int, 0x10000);
        let q = c / 0x10000;
        assert(q < 0x10000);
        lemma_div_mod_split(q as int * 0x10000, 0x10000, q as int, 0);
    }

    fn default_sample() -> i16 {
        0i16
    }

    fn to_canon(self) -> u32 {
        ((self as i32) + 0x8000) as u32 * 0x10000
    }

    fn from_canon(c: u32) -> i16 {
        ((c / 0x10000) as i32 - 0x8000) as i16
    }
}

impl Sample for u24 {
    open spec fn canon_step() -> nat {
        0x100
    }

    open spec fn canon_of(self) -> nat {
        self.value_sp() * 0x100
    }

    open spec fn of_canon(c: nat) -> u24 {
        u24 {
            b0: ((c / 0x100) % 0x100) as u8,
            b1: ((c / 0x10000) % 0x100) as u8,
            b2: ((c / 0x1000000) % 0x100) as u8,
        }
    }

    open spec fn default_sp() -> u24 {
        u24 { b0: 0u8, b1: 0u8, b2: 0u8 }
    }

    proof fn lemma_canon(self) {
        lemma_u24_decompose(self.b0 as nat, self.b1 as nat, self.b2 as nat);
        let v = self.value_sp();
        lemma_div_mod_split(v as int * 0x100, 0x100, v as int, 0);
        // Split the canonical level back into the three bytes.
        let c = v * 0x100;
        assert(c / 0x100 == v);
        assert(c as int / 0x10000 == v as int / 0x100) by {
            vstd::arithmetic::div_mod::lemma_div_denominator(c as int, 0x100, 0x100);
        }
        assert(c as int / 0x1000000 == v as int / 0x10000) by {
            vstd::arithmetic::div_mod::lemma_div_denominator(c as int, 0x100, 0x10000);
        }
        assert(self.b2 as int % 0x100 == self.b2 as int) by {
            vstd::arithmetic::div_mod::lemma_small_mod(self.b2 as nat, 0x100);
        }
    }

    proof fn lemma_step() {
    }

    proof fn lemma_of_canon(c: nat) {
        let v = c / 0x100;
        assert(v < 0x1000000);
        lemma_u24_decompose((v % 0x100) as nat, ((v / 0x100) % 0x100) as nat, (v
            / 0x10000) as nat);
        vstd::arithmetic::div_mod::lemma_fundamental_div_mod(v as int, 0x100);
        vstd::arithmetic::div_mod::lemma_fundamental_div_mod(v as int / 0x100, 0x100);
        vstd::arithmetic::div_mod::lemma_fundamental_div_mod(v as int, 0x10000);
        assert(v as int / 0x10000 % 0x100 == v as int / 0x10000) by {
            vstd::arithmetic::div_mod::lemma_small_mod((v / 0x10000) as nat, 0x100);
        }
        assert(c as int / 0x10000 == v as int / 0x100) by {
            vstd::arithmetic::div_mod::lemma_div_denominator(c as int, 0x100, 0x100);
        }
        assert(c as int / 0x1000000 == v as int / 0x10000) by {
            vstd::arithmetic::div_mod::lemma_div_denominator(c as int, 0x100, 0x10000);
        }
        vstd::arithmetic::div_mod::lemma_fundamental_div_mod(c as int, 0x100);
    }

    fn default_sample() -> u24 {
        u24 { b0: 0u8, b1: 0u8, b2: 0u8 }
    }

    fn to_canon(self) -> u32 {
        proof {
            lemma_u24_decompose(self.b0 as nat, self.b1 as nat, self.b2 as nat);
        }
        self.value() * 0x100
    }

    fn from_canon(c: u32) -> u24 {
        u24 {
            b0: ((c / 0x100) % 0x100) as u8,
            b1: ((c / 0x10000) % 0x100) as u8,
            b2: ((c / 0x1000000) % 0x100) as u8,
        }
    }
}

/// The biased high byte of a signed 24-bit sample: the sign bit flipped, so
/// that the canonical order matches the numeric order.
pub open spec fn flip_sign_byte(b: u8) -> nat {
    if b >= 0x80 {
        (b - 0x80) as nat
    } else {
        (b + 0x80) as nat
    }
}

impl Sample for i24 {
    open spec fn canon_step() -> nat {
        0x100
    }

    open spec fn canon_of(self) -> nat {
        u24_val(self.b0, self.b1, (flip_sign_byte(self.b2)) as u8) * 0x100
    }

    open spec fn of_canon(c: nat) -> i24 {
        i24 {
            b0: ((c / 0x100) % 0x100) as u8,
            b1: ((c / 0x10000) % 0x100) as u8,
            b2: (flip_sign_byte(((c / 0x1000000) % 0x100) as u8)) as u8,
        }
    }

    open spec fn default_sp() -> i24 {
        i24 { b0: 0u8, b1: 0u8, b2: 0u8 }
    }

    proof fn lemma_canon(self) {
        let h = flip_sign_byte(self.b2);
        lemma_u24_decompose(self.b0 as nat, self.b1 as nat, h);
        let v = u24_val(self.b0, self.b1, h as u8);
        lemma_div_mod_split(v as int * 0x100, 0x100, v as int, 0);
        let c = v * 0x100;
        assert(c as int / 0x10000 == v as int / 0x100) by {
            vstd::arithmetic::div_mod::lemma_div_denominator(c as int, 0x100, 0x100);
        }
        assert(c as int / 0x1000000 == v as int / 0x10000) by {
            vstd::arithmetic::div_mod::lemma_div_denominator(c as int, 0x100, 0x10000);
        }
        assert(h < 0x100);
        assert(h as int % 0x100 == h as int) by {
            vstd::arithmetic::div_mod::lemma_small_mod(h, 0x100);
        }
    }

    proof fn lemma_step() {
    }

    proof fn lemma_of_canon(c: nat) {
        let v = c / 0x100;
        assert(v < 0x1000000);
        let b0 = (v % 0x100) as nat;
        let b1 = ((v / 0x100) % 0x100) as nat;
        let b2 = (v / 0x10000) as nat;
        lemma_u24_decompose(b0, b1, b2);
        vstd::arithmetic::div_mod::lemma_fundamental_div_mod(v as int, 0x100);
        vstd::arithmetic::div_mod::lemma_fundamental_div_mod(v as int / 0x100, 0x100);
        vstd::arithmetic::div_mod::lemma_fundamental_div_mod(v as int, 0x10000);
        assert(v as int / 0x10000 % 0x100 == v as int / 0x10000) by {
            vstd::arithmetic::div_mod::lemma_small_mod((v / 0x10000) as nat, 0x100);
        }
        assert(c as int / 0x10000 == v as int / 0x100) by {
            vstd::arithmetic::div_mod::lemma_div_denominator(c as int, 0x100, 0x100);
        }
        assert(c as int / 0x1000000 == v as int / 0x10000) by {
            vstd::arithmetic::div_mod::lemma_div_denominator(c as int, 0x100, 0x10000);
        }
        vstd::arithmetic::div_mod::lemma_fundamental_div_mod(c as int, 0x100);
    }

    fn default_sample() -> i24 {
        i24 { b0: 0u8, b1: 0u8, b2: 0u8 }
    }

    fn to_canon(self) -> u32 {
        let h: u8 = if self.b2 >= 0x80 {
            self.b2 - 0x80
        } else {
            self.b2 + 0x80
        };
        proof {
            lemma_u24_decompose(self.b0 as nat, self.b1 as nat, h as nat);
        }
        (self.b0 as u32 + self.b1 as u32 * 0x100 + h as u32 * 0x10000) * 0x100
    }

    fn from_canon(c: u32) -> i24 {
        let hraw: u8 = ((c / 0x1000000) % 0x100) as u8;
        let h: u8 = if hraw >= 0x80 {
            hraw - 0x80
        } else {
            hraw + 0x80
        };
        i24 { b0: ((c / 0x100) % 0x100) as u8, b1: ((c / 0x10000) % 0x100) as u8, b2: h }
    }
}

impl Sample for u32 {
    open spec fn canon_step() -> nat {
        1
    }

    open spec fn canon_of(self) -> nat {
        self as nat
    }

    open spec fn of_canon(c: nat) -> u32 {
        c as u32
    }

    open spec fn default_sp() -> u32 {
        0u32
    }

    proof fn lemma_canon(self) {
    }

    proof fn lemma_step() {
    }

    proof fn lemma_of_canon(c: nat) {
    }

    fn default_sample() -> u32 {
        0u32
    }

    fn to_canon(self) -> u32 {
        self
    }

    fn from_canon(c: u32) -> u32 {
        c
    }
}

impl Sample for i32 {
    open spec fn canon_step() -> nat {
        1
    }

    open spec fn canon_of(self) -> nat {
        (self as int + 0x80000000) as nat
    }

    open spec fn of_canon(c: nat) -> i32 {
        (c - 0x80000000) as i32
    }

    open spec fn default_sp() -> i32 {
        0i32
    }

    proof fn lemma_canon(self) {
    }

    proof fn lemma_step() {
    }

    proof fn lemma_of_canon(c: nat) {
    }

    fn default_sample() -> i32 {
        0i32
    }

    fn to_canon(self) -> u32 {
        ((self as i64) + 0x80000000i64) as u32
    }

    fn from_canon(c: u32) -> i32 {
        ((c as i64) - 0x80000000i64) as i32
    }
}

} // verus!
