//! Planar multi-channel audio buffers.
//!
//! This library is the in-memory representation and conversion layer for
//! decoded PCM audio. It provides the planar [`buffer::AudioBuffer`], the
//! render protocol codecs use to fill it, lossless and lossy conversion
//! between sample kinds, and the export pipeline that serialises a buffer
//! into a flat byte stream in planar or interleaved order. A small
//! metadata module holds the typed tag atoms a container's user-data list
//! carries, with their byte-level parsing rules.

pub mod buffer;
pub mod meta;
pub mod sample_buffer;
pub mod sample;
pub mod signal;
