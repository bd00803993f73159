//! Extraction of captured video frames from row-padded pixel buffers.
//!
//! A platform capture session delivers pixel memory whose rows may carry
//! alignment padding: each row occupies `bytes_per_row` bytes, of which only
//! the first `4 * width` hold BGRA pixel data. This crate crops such a buffer
//! to a contiguous, stride-free layout and converts it to one of three packed
//! pixel formats (BGRA, BGR, RGB), byte-exactly and without color math.

pub mod frame;
pub mod pixelformat;
pub mod support;
