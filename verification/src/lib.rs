//! Game Genie cheat codes for cartridge ROM images.
//!
//! A code is a short string over a sixteen-letter alphabet. It encodes a
//! sixteen-bit address, a replacement byte and, in its longer form, a compare
//! byte that guards the replacement. This crate decodes such codes and
//! describes, byte by byte, what applying a list of them does to an image.
//!
//! - [`alphabet`]: the letters and their values.
//! - [`nibbles`]: the values of a code's letters, and how they are interleaved.
//! - [`code`]: decoding a code into address, value and compare byte.
//! - [`patch`]: the write that a decoded code makes, and the base offsets of
//!   the codes of a list.
//! - [`platform`]: the platforms, of which one has a decoder.
//! - [`run`]: applying a list, as a state machine whose host does the reading
//!   and writing.
//! - [`image`]: applying a list to an image in memory.
//! - [`split`]: taking a list apart at its separators.
//! - [`error`]: why a run fails.

pub mod alphabet;
pub mod code;
pub mod error;
pub mod image;
pub mod nibbles;
pub mod patch;
pub mod platform;
pub mod run;
pub mod split;
