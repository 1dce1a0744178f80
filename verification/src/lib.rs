//! In-memory representation of a tokenized text result (an `Encoding`):
//! a set of parallel, index-aligned arrays describing each token (surface
//! text, vocabulary id, segment id, offsets, mask bits), together with the
//! two structural transforms every downstream consumer needs — truncation
//! and padding to a fixed length — and a byte-level export of the numeric
//! arrays for cheap transfer across a host-language boundary.

pub mod bytes;
pub mod encoding;
