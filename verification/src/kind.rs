//! The closed set of field kinds a key may contain.
//!
//! A field is a signed or unsigned integer of 1, 2, 4, 8 or 16 bytes, or a
//! fixed-length byte array.  The kind alone determines the field's width,
//! its native value range, and how a value is laid down in the key buffer:
//! unsigned integers verbatim in big-endian order, signed integers biased
//! by the magnitude of the type minimum (equivalently, with the sign bit
//! flipped) so that the byte order matches the numeric order, and arrays
//! byte for byte.

use vstd::prelude::*;
use crate::bytes::{
    be_seq, be_val, lex_lt, pow256, lemma_be_seq_len, lemma_be_seq_order, lemma_be_seq_extremes,
    lemma_be_val_bound, lemma_be_seq_of_be_val, lemma_be_val_of_be_seq,
};

verus! {

/// The kind of one field of a key: a signed or unsigned integer of a fixed
/// byte width, or a byte array of the given length.
#[derive(Copy, Clone, Debug, PartialEq, Eq, Structural)]
pub enum FieldSize {
    Signed8,
    Signed16,
    Signed32,
    Signed64,
    Signed128,
    Unsigned8,
    Unsigned16,
    Unsigned32,
    Unsigned64,
    Unsigned128,
    Array(usize),
}

impl FieldSize {
    /// The width in bytes of a field of this kind.
    pub open spec fn spec_size(self) -> nat {
        match self {
            FieldSize::Signed8 => 1,
            FieldSize::Signed16 => 2,
            FieldSize::Signed32 => 4,
            FieldSize::Signed64 => 8,
            FieldSize::Signed128 => 16,
            FieldSize::Unsigned8 => 1,
            FieldSize::Unsigned16 => 2,
            FieldSize::Unsigned32 => 4,
            FieldSize::Unsigned64 => 8,
            FieldSize::Unsigned128 => 16,
            FieldSize::Array(size) => size as nat,
        }
    }

    /// Return the size of the field type in bytes.
    pub fn size(&self) -> (r: usize)
        ensures
            r == self.spec_size(),
    {
        match self {
            FieldSize::Signed8 => 1,
            FieldSize::Signed16 => 2,
            FieldSize::Signed32 => 4,
            FieldSize::Signed64 => 8,
            FieldSize::Signed128 => 16,
            FieldSize::Unsigned8 => 1,
            FieldSize::Unsigned16 => 2,
            FieldSize::Unsigned32 => 4,
            FieldSize::Unsigned64 => 8,
            FieldSize::Unsigned128 => 16,
            FieldSize::Array(size) => *size,
        }
    }

    pub open spec fn is_signed(self) -> bool {
        match self {
            FieldSize::Signed8
            | FieldSize::Signed16
            | FieldSize::Signed32
            | FieldSize::Signed64
            | FieldSize::Signed128 => true,
            _ => false,
        }
    }

    pub open spec fn is_unsigned(self) -> bool {
        match self {
            FieldSize::Unsigned8
            | FieldSize::Unsigned16
            | FieldSize::Unsigned32
            | FieldSize::Unsigned64
            | FieldSize::Unsigned128 => true,
            _ => false,
        }
    }

    /// An integer kind, signed or unsigned.
    pub open spec fn is_int(self) -> bool {
        self.is_signed() || self.is_unsigned()
    }

    pub open spec fn is_array(self) -> bool {
        self matches FieldSize::Array(_)
    }

    /// The bias added to a native value before it is written out.  For a
    /// signed kind this is the magnitude of the type minimum, so that
    /// biasing is the same as flipping the sign bit; unsigned values are
    /// written verbatim.
    pub open spec fn bias(self) -> nat {
        if self.is_signed() {
            128 * pow256((self.spec_size() - 1) as nat)
        } else {
            0
        }
    }

    /// The smallest native value of an integer kind.
    pub open spec fn min_value(self) -> int
        recommends
            self.is_int(),
    {
        if self.is_signed() {
            -(self.bias() as int)
        } else {
            0
        }
    }

    /// The largest native value of an integer kind.
    pub open spec fn max_value(self) -> int
        recommends
            self.is_int(),
    {
        if self.is_signed() {
            self.bias() as int - 1
        } else {
            pow256(self.spec_size()) as int - 1
        }
    }

    /// Whether `v` lies in the native range of this integer kind.
    pub open spec fn in_range(self, v: int) -> bool
        recommends
            self.is_int(),
    {
        self.min_value() <= v <= self.max_value()
    }

    /// The byte string an integer value of this kind is stored as.
    pub open spec fn encode_int(self, v: int) -> Seq<u8>
        recommends
            self.is_int(),
            self.in_range(v),
    {
        be_seq((v + self.bias()) as nat, self.spec_size())
    }

    /// The integer value a byte string of this kind stores.
    pub open spec fn decode_int(self, s: Seq<u8>) -> int
        recommends
            self.is_int(),
    {
        be_val(s) - self.bias()
    }

    /// The stored bytes of the kind's own default: zero for integers, an
    /// all-zero array for arrays.
    pub open spec fn default_bytes(self) -> Seq<u8> {
        if self.is_int() {
            self.encode_int(0)
        } else {
            Seq::new(self.spec_size(), |i: int| 0u8)
        }
    }

    /// The stored bytes of the kind's smallest value: the type minimum
    /// for integers, the all-zero array for arrays.
    pub open spec fn min_bytes(self) -> Seq<u8> {
        if self.is_int() {
            self.encode_int(self.min_value())
        } else {
            Seq::new(self.spec_size(), |i: int| 0u8)
        }
    }

    /// The stored bytes of the kind's largest value: the type maximum for
    /// integers, the all-`0xFF` array for arrays.
    pub open spec fn max_bytes(self) -> Seq<u8> {
        if self.is_int() {
            self.encode_int(self.max_value())
        } else {
            Seq::new(self.spec_size(), |i: int| 0xFFu8)
        }
    }
}

/// Every kind stores its smallest value as all-zero bytes and its largest
/// as all-`0xFF` bytes: the foundation of the uniform-bounds shortcut for
/// whole-key minima and maxima.
pub proof fn lemma_extreme_bytes(k: FieldSize)
    ensures
        k.min_bytes() == Seq::new(k.spec_size(), |i: int| 0u8),
        k.max_bytes() == Seq::new(k.spec_size(), |i: int| 0xFFu8),
{
    if k.is_int() {
        if k.is_signed() {
            lemma_bias_span(k);
        }
        assert(k.min_value() + k.bias() == 0);
        assert(k.max_value() + k.bias() == pow256(k.spec_size()) - 1);
        lemma_be_seq_extremes(k.spec_size());
    }
}

/// Twice the bias of a signed kind is the full span of its width, so the
/// biased values of a signed kind fill `[0, 256^w)` exactly.
pub proof fn lemma_bias_span(k: FieldSize)
    requires
        k.is_signed(),
    ensures
        2 * k.bias() == pow256(k.spec_size()),
        k.bias() == pow256(k.spec_size()) / 2,
{
    assert(pow256(k.spec_size()) == 256 * pow256((k.spec_size() - 1) as nat));
}

/// Encoding keeps an in-range integer value inside the width of the kind.
pub proof fn lemma_encode_int_fits(k: FieldSize, v: int)
    requires
        k.is_int(),
        k.in_range(v),
    ensures
        0 <= v + k.bias() < pow256(k.spec_size()),
        k.encode_int(v).len() == k.spec_size(),
{
    if k.is_signed() {
        lemma_bias_span(k);
    }
    lemma_be_seq_len((v + k.bias()) as nat, k.spec_size());
}

/// The per-kind round trip: decoding an encoded in-range value gives the
/// value back.
pub proof fn lemma_int_round_trip(k: FieldSize, v: int)
    requires
        k.is_int(),
        k.in_range(v),
    ensures
        k.decode_int(k.encode_int(v)) == v,
{
    lemma_encode_int_fits(k, v);
    lemma_be_val_of_be_seq((v + k.bias()) as nat, k.spec_size());
}

/// Every byte string of an integer kind's width stores an in-range
/// value, and re-encoding that value gives the same bytes back: the
/// stored forms of a kind are in bijection with its native range.
pub proof fn lemma_decode_in_range(k: FieldSize, s: Seq<u8>)
    requires
        k.is_int(),
        s.len() == k.spec_size(),
    ensures
        k.in_range(k.decode_int(s)),
        k.encode_int(k.decode_int(s)) == s,
{
    lemma_be_val_bound(s);
    if k.is_signed() {
        lemma_bias_span(k);
    }
    lemma_be_seq_of_be_val(s);
}

/// Biasing is monotone, so the byte order of two encoded values of one
/// integer kind is exactly their numeric order.
pub proof fn lemma_int_order(k: FieldSize, v1: int, v2: int)
    requires
        k.is_int(),
        k.in_range(v1),
        k.in_range(v2),
    ensures
        lex_lt(k.encode_int(v1), k.encode_int(v2)) <==> v1 < v2,
{
    lemma_encode_int_fits(k, v1);
    lemma_encode_int_fits(k, v2);
    lemma_be_seq_order((v1 + k.bias()) as nat, (v2 + k.bias()) as nat, k.spec_size());
}

} // verus!
