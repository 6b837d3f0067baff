//! An order-preserving binary codec for composite database keys.
//!
//! A key type is described by an ordered table of typed fields (signed and
//! unsigned integers of 1 to 16 bytes, and fixed-length byte arrays).  The
//! codec packs one value per field into a single contiguous big-endian
//! buffer, so that byte-wise lexicographic comparison of two encoded keys
//! agrees with field-by-field numeric comparison of the decoded tuples.
//! Signed fields are stored with their sign bit flipped (equivalently,
//! biased by the magnitude of the type minimum), which maps the signed range
//! monotonically onto the unsigned one; that is what makes the plain byte
//! comparison come out right.
//!
//! The crate is laid out bottom up:
//!
//! - [`bytes`]: big-endian byte strings, their values, and the
//!   lexicographic order;
//! - [`kind`]: the closed set of field kinds, with each kind's width,
//!   range, bias and stored forms;
//! - [`value`]: a single field value in its stored form, with the typed
//!   constructors and extractors and the literal-style renderings;
//! - [`descriptor`]: the field table of a key type, built once from a
//!   declaration, with every definition-time rejection;
//! - [`key`]: the encoded key buffer and the table-driven operations on
//!   it;
//! - [`order`] and [`laws`]: the proved whole-key guarantees --- order
//!   preservation, collision freedom, default composition, setter
//!   framing, ingestion padding, and the uniform-bounds shortcut;
//! - [`codec`]: fixed-offset readers and writers for the native integer
//!   types;
//! - [`render`]: diagnostic text renderings of raw key buffers;
//! - [`samples`]: concrete key types written against the codec.
//!
//! Per-field minimum and maximum overrides are supported throughout.  A
//! narrower mode that only ever computes a uniform all-`0xFF` whole-key
//! maximum and has no per-field minimum is deliberately not provided: the
//! per-field bounds here subsume it, and when no field narrows its bounds
//! the whole-key extremes reduce to plain buffer fills (see
//! [`laws::lemma_uniform_bounds`]).

pub mod bytes;
pub mod kind;
pub mod value;
pub mod descriptor;
pub mod key;
pub mod order;
pub mod laws;
pub mod render;
pub mod codec;
pub mod samples;
