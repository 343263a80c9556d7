//! Decoder for the sfnt container format that underlies TrueType and
//! OpenType fonts.
//!
//! The crate reads a table directory from an untrusted byte buffer, locates
//! the tables it needs by their four-byte tags, and decodes character
//! mappings (`cmap` formats 0 and 4), font metrics (`head`, `hhea`, `maxp`),
//! glyph offsets (`loca`) and vector glyph outlines (`glyf`). Every decoder
//! is bounds-checked: a truncated buffer yields an `OutOfRange` error, never
//! a panic, and each decoder's contract states exactly which bytes determine
//! its result.

pub mod cmap;
pub mod directory;
pub mod error;
pub mod font;
pub mod glyf;
pub mod metrics;
pub mod parser;
