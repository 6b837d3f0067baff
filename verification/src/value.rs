//! A single field value, held in its encoded form.
//!
//! `FieldValue` pairs a field kind with the byte string that a value of
//! that kind is stored as inside a key: unsigned integers big-endian,
//! signed integers big-endian after biasing (the sign-bit flip), arrays
//! verbatim.  Construction from a native value performs the encoding;
//! extraction checks the kind and performs the decoding, and a mismatch is
//! the only error the codec can raise at run time.

use vstd::prelude::*;
use crate::bytes::{
    lemma_be_seq_len, lemma_be_val_bound, lemma_pow256_values, be_encode, be_decode,
};
use crate::kind::FieldSize;
use crate::render::{
    dec_int, dec_nat, hex_byte_upper, hex_bytes_upper, append_dec, append_hex_byte,
    append_hex_range,
};
use vstd::string::StringExecFns;

verus! {

/// The error raised when a `FieldValue` is read back as the wrong kind:
/// either the kind differs outright, or both are arrays but of different
/// lengths.
#[derive(Copy, Clone, Debug, PartialEq, Eq, Structural)]
pub enum FieldValueError {
    WrongKind { expected: FieldSize, actual: FieldSize },
    WrongSize { expected: usize, actual: usize },
}

/// One field value in its stored form: a kind together with exactly as
/// many bytes as the kind is wide.
#[derive(Clone, Debug, PartialEq, Eq)]
pub struct FieldValue {
    size: FieldSize,
    value: Vec<u8>,
}

impl FieldValue {
    /// The kind this value belongs to.
    pub closed spec fn kind(self) -> FieldSize {
        self.size
    }

    /// The stored bytes.
    pub closed spec fn bytes(self) -> Seq<u8> {
        self.value@
    }

    /// A well-formed value holds exactly as many bytes as its kind is
    /// wide.
    pub open spec fn wf(self) -> bool {
        self.bytes().len() == self.kind().spec_size()
    }

    /// The kind, for executable callers.
    pub fn kind_exec(&self) -> (k: FieldSize)
        ensures
            k == self.kind(),
    {
        self.size
    }

    /// The stored bytes, for executable callers.
    pub fn raw_bytes(&self) -> (r: &Vec<u8>)
        ensures
            r@ == self.bytes(),
    {
        &self.value
    }

    /// Assemble a value from a kind and its stored bytes.
    pub(crate) fn from_parts(size: FieldSize, value: Vec<u8>) -> (r: FieldValue)
        ensures
            r.kind() == size,
            r.bytes() == value@,
    {
        FieldValue { size, value }
    }

    pub fn from_u8(v: u8) -> (r: FieldValue)
        ensures
            r.wf(),
            r.kind() == FieldSize::Unsigned8,
            r.bytes() == FieldSize::Unsigned8.encode_int(v as int),
    {
        proof {
            lemma_pow256_values();
            lemma_be_seq_len(v as nat, 1);
        }
        FieldValue { size: FieldSize::Unsigned8, value: be_encode(v as u128, 1) }
    }

    pub fn from_u16(v: u16) -> (r: FieldValue)
        ensures
            r.wf(),
            r.kind() == FieldSize::Unsigned16,
            r.bytes() == FieldSize::Unsigned16.encode_int(v as int),
    {
        proof {
            lemma_pow256_values();
            lemma_be_seq_len(v as nat, 2);
        }
        FieldValue { size: FieldSize::Unsigned16, value: be_encode(v as u128, 2) }
    }

    pub fn from_u32(v: u32) -> (r: FieldValue)
        ensures
            r.wf(),
            r.kind() == FieldSize::Unsigned32,
            r.bytes() == FieldSize::Unsigned32.encode_int(v as int),
    {
        proof {
            lemma_pow256_values();
            lemma_be_seq_len(v as nat, 4);
        }
        FieldValue { size: FieldSize::Unsigned32, value: be_encode(v as u128, 4) }
    }

    pub fn from_u64(v: u64) -> (r: FieldValue)
        ensures
            r.wf(),
            r.kind() == FieldSize::Unsigned64,
            r.bytes() == FieldSize::Unsigned64.encode_int(v as int),
    {
        proof {
            lemma_pow256_values();
            lemma_be_seq_len(v as nat, 8);
        }
        FieldValue { size: FieldSize::Unsigned64, value: be_encode(v as u128, 8) }
    }

    pub fn from_u128(v: u128) -> (r: FieldValue)
        ensures
            r.wf(),
            r.kind() == FieldSize::Unsigned128,
            r.bytes() == FieldSize::Unsigned128.encode_int(v as int),
    {
        proof {
            lemma_pow256_values();
            lemma_be_seq_len(v as nat, 16);
        }
        FieldValue { size: FieldSize::Unsigned128, value: be_encode(v, 16) }
    }

    pub fn from_i8(v: i8) -> (r: FieldValue)
        ensures
            r.wf(),
            r.kind() == FieldSize::Signed8,
            r.bytes() == FieldSize::Signed8.encode_int(v as int),
    {
        let biased: i128 = (v as i128) + 0x80;
        proof {
            lemma_pow256_values();
            lemma_be_seq_len(biased as nat, 1);
        }
        FieldValue { size: FieldSize::Signed8, value: be_encode(biased as u128, 1) }
    }

    pub fn from_i16(v: i16) -> (r: FieldValue)
        ensures
            r.wf(),
            r.kind() == FieldSize::Signed16,
            r.bytes() == FieldSize::Signed16.encode_int(v as int),
    {
        let biased: i128 = (v as i128) + 0x8000;
        proof {
            lemma_pow256_values();
            lemma_be_seq_len(biased as nat, 2);
        }
        FieldValue { size: FieldSize::Signed16, value: be_encode(biased as u128, 2) }
    }

    pub fn from_i32(v: i32) -> (r: FieldValue)
        ensures
            r.wf(),
            r.kind() == FieldSize::Signed32,
            r.bytes() == FieldSize::Signed32.encode_int(v as int),
    {
        let biased: i128 = (v as i128) + 0x80000000;
        proof {
            lemma_pow256_values();
            lemma_be_seq_len(biased as nat, 4);
        }
        FieldValue { size: FieldSize::Signed32, value: be_encode(biased as u128, 4) }
    }

    pub fn from_i64(v: i64) -> (r: FieldValue)
        ensures
            r.wf(),
            r.kind() == FieldSize::Signed64,
            r.bytes() == FieldSize::Signed64.encode_int(v as int),
    {
        let biased: i128 = (v as i128) + 0x8000000000000000;
        proof {
            lemma_pow256_values();
            lemma_be_seq_len(biased as nat, 8);
        }
        FieldValue { size: FieldSize::Signed64, value: be_encode(biased as u128, 8) }
    }

    pub fn from_i128(v: i128) -> (r: FieldValue)
        ensures
            r.wf(),
            r.kind() == FieldSize::Signed128,
            r.bytes() == FieldSize::Signed128.encode_int(v as int),
    {
        // The bias of a 16-byte signed field does not fit in `i128`, so
        // the two halves of the range are shifted separately.
        let biased: u128 = if v >= 0 {
            (v as u128) + 0x80000000000000000000000000000000
        } else {
            let m: i128 = -(v + 1);
            0x7FFFFFFFFFFFFFFFFFFFFFFFFFFFFFFF - (m as u128)
        };
        proof {
            lemma_pow256_values();
            lemma_be_seq_len(biased as nat, 16);
        }
        FieldValue { size: FieldSize::Signed128, value: be_encode(biased, 16) }
    }

    /// Wrap the bytes of a fixed-length array field.
    pub fn from_bytes(b: &[u8]) -> (r: FieldValue)
        requires
            b@.len() >= 1,
        ensures
            r.wf(),
            r.kind() == FieldSize::Array(b@.len() as usize),
            r.bytes() == b@,
    {
        let n: usize = b.len();
        FieldValue { size: FieldSize::Array(n), value: vstd::slice::slice_to_vec(b) }
    }

    pub fn try_to_u8(&self) -> (r: Result<u8, FieldValueError>)
        requires
            self.wf(),
        ensures
            match r {
                Ok(v) => self.kind() == FieldSize::Unsigned8 && v as int == self.kind().decode_int(
                    self.bytes(),
                ),
                Err(e) => self.kind() != FieldSize::Unsigned8 && e == (FieldValueError::WrongKind {
                    expected: FieldSize::Unsigned8,
                    actual: self.kind(),
                }),
            },
    {
        match self.size {
            FieldSize::Unsigned8 => {
                proof {
                    lemma_be_val_bound(self.value@);
                    lemma_pow256_values();
                    assert(self.value@.subrange(0, 1) =~= self.value@);
                }
                let u = be_decode(&self.value, 0, 1);
                Ok(u as u8)
            },
            _ => Err(
                FieldValueError::WrongKind { expected: FieldSize::Unsigned8, actual: self.size },
            ),
        }
    }

    pub fn try_to_u16(&self) -> (r: Result<u16, FieldValueError>)
        requires
            self.wf(),
        ensures
            match r {
                Ok(v) => self.kind() == FieldSize::Unsigned16 && v as int
                    == self.kind().decode_int(self.bytes()),
                Err(e) => self.kind() != FieldSize::Unsigned16 && e
                    == (FieldValueError::WrongKind {
                    expected: FieldSize::Unsigned16,
                    actual: self.kind(),
                }),
            },
    {
        match self.size {
            FieldSize::Unsigned16 => {
                proof {
                    lemma_be_val_bound(self.value@);
                    lemma_pow256_values();
                    assert(self.value@.subrange(0, 2) =~= self.value@);
                }
                let u = be_decode(&self.value, 0, 2);
                Ok(u as u16)
            },
            _ => Err(
                FieldValueError::WrongKind { expected: FieldSize::Unsigned16, actual: self.size },
            ),
        }
    }

    pub fn try_to_u32(&self) -> (r: Result<u32, FieldValueError>)
        requires
            self.wf(),
        ensures
            match r {
                Ok(v) => self.kind() == FieldSize::Unsigned32 && v as int
                    == self.kind().decode_int(self.bytes()),
                Err(e) => self.kind() != FieldSize::Unsigned32 && e
                    == (FieldValueError::WrongKind {
                    expected: FieldSize::Unsigned32,
                    actual: self.kind(),
                }),
            },
    {
        match self.size {
            FieldSize::Unsigned32 => {
                proof {
                    lemma_be_val_bound(self.value@);
                    lemma_pow256_values();
                    assert(self.value@.subrange(0, 4) =~= self.value@);
                }
                let u = be_decode(&self.value, 0, 4);
                Ok(u as u32)
            },
            _ => Err(
                FieldValueError::WrongKind { expected: FieldSize::Unsigned32, actual: self.size },
            ),
        }
    }

    pub fn try_to_u64(&self) -> (r: Result<u64, FieldValueError>)
        requires
            self.wf(),
        ensures
            match r {
                Ok(v) => self.kind() == FieldSize::Unsigned64 && v as int
                    == self.kind().decode_int(self.bytes()),
                Err(e) => self.kind() != FieldSize::Unsigned64 && e
                    == (FieldValueError::WrongKind {
                    expected: FieldSize::Unsigned64,
                    actual: self.kind(),
                }),
            },
    {
        match self.size {
            FieldSize::Unsigned64 => {
                proof {
                    lemma_be_val_bound(self.value@);
                    lemma_pow256_values();
                    assert(self.value@.subrange(0, 8) =~= self.value@);
                }
                let u = be_decode(&self.value, 0, 8);
                Ok(u as u64)
            },
            _ => Err(
                FieldValueError::WrongKind { expected: FieldSize::Unsigned64, actual: self.size },
            ),
        }
    }

    pub fn try_to_u128(&self) -> (r: Result<u128, FieldValueError>)
        requires
            self.wf(),
        ensures
            match r {
                Ok(v) => self.kind() == FieldSize::Unsigned128 && v as int
                    == self.kind().decode_int(self.bytes()),
                Err(e) => self.kind() != FieldSize::Unsigned128 && e
                    == (FieldValueError::WrongKind {
                    expected: FieldSize::Unsigned128,
                    actual: self.kind(),
                }),
            },
    {
        match self.size {
            FieldSize::Unsigned128 => {
                proof {
                    assert(self.value@.subrange(0, 16) =~= self.value@);
                }
                let u = be_decode(&self.value, 0, 16);
                Ok(u)
            },
            _ => Err(
                FieldValueError::WrongKind { expected: FieldSize::Unsigned128, actual: self.size },
            ),
        }
    }

    pub fn try_to_i8(&self) -> (r: Result<i8, FieldValueError>)
        requires
            self.wf(),
        ensures
            match r {
                Ok(v) => self.kind() == FieldSize::Signed8 && v as int == self.kind().decode_int(
                    self.bytes(),
                ),
                Err(e) => self.kind() != FieldSize::Signed8 && e == (FieldValueError::WrongKind {
                    expected: FieldSize::Signed8,
                    actual: self.kind(),
                }),
            },
    {
        match self.size {
            FieldSize::Signed8 => {
                proof {
                    lemma_be_val_bound(self.value@);
                    lemma_pow256_values();
                    assert(self.value@.subrange(0, 1) =~= self.value@);
                }
                let u = be_decode(&self.value, 0, 1);
                Ok(((u as i128) - 0x80) as i8)
            },
            _ => Err(FieldValueError::WrongKind { expected: FieldSize::Signed8, actual: self.size }),
        }
    }

    pub fn try_to_i16(&self) -> (r: Result<i16, FieldValueError>)
        requires
            self.wf(),
        ensures
            match r {
                Ok(v) => self.kind() == FieldSize::Signed16 && v as int == self.kind().decode_int(
                    self.bytes(),
                ),
                Err(e) => self.kind() != FieldSize::Signed16 && e == (FieldValueError::WrongKind {
                    expected: FieldSize::Signed16,
                    actual: self.kind(),
                }),
            },
    {
        match self.size {
            FieldSize::Signed16 => {
                proof {
                    lemma_be_val_bound(self.value@);
                    lemma_pow256_values();
                    assert(self.value@.subrange(0, 2) =~= self.value@);
                }
                let u = be_decode(&self.value, 0, 2);
                Ok(((u as i128) - 0x8000) as i16)
            },
            _ => Err(
                FieldValueError::WrongKind { expected: FieldSize::Signed16, actual: self.size },
            ),
        }
    }

    pub fn try_to_i32(&self) -> (r: Result<i32, FieldValueError>)
        requires
            self.wf(),
        ensures
            match r {
                Ok(v) => self.kind() == FieldSize::Signed32 && v as int == self.kind().decode_int(
                    self.bytes(),
                ),
                Err(e) => self.kind() != FieldSize::Signed32 && e == (FieldValueError::WrongKind {
                    expected: FieldSize::Signed32,
                    actual: self.kind(),
                }),
            },
    {
        match self.size {
            FieldSize::Signed32 => {
                proof {
                    lemma_be_val_bound(self.value@);
                    lemma_pow256_values();
                    assert(self.value@.subrange(0, 4) =~= self.value@);
                }
                let u = be_decode(&self.value, 0, 4);
                Ok(((u as i128) - 0x80000000) as i32)
            },
            _ => Err(
                FieldValueError::WrongKind { expected: FieldSize::Signed32, actual: self.size },
            ),
        }
    }

    pub fn try_to_i64(&self) -> (r: Result<i64, FieldValueError>)
        requires
            self.wf(),
        ensures
            match r {
                Ok(v) => self.kind() == FieldSize::Signed64 && v as int == self.kind().decode_int(
                    self.bytes(),
                ),
                Err(e) => self.kind() != FieldSize::Signed64 && e == (FieldValueError::WrongKind {
                    expected: FieldSize::Signed64,
                    actual: self.kind(),
                }),
            },
    {
        match self.size {
            FieldSize::Signed64 => {
                proof {
                    lemma_be_val_bound(self.value@);
                    lemma_pow256_values();
                    assert(self.value@.subrange(0, 8) =~= self.value@);
                }
                let u = be_decode(&self.value, 0, 8);
                Ok(((u as i128) - 0x8000000000000000) as i64)
            },
            _ => Err(
                FieldValueError::WrongKind { expected: FieldSize::Signed64, actual: self.size },
            ),
        }
    }

    pub fn try_to_i128(&self) -> (r: Result<i128, FieldValueError>)
        requires
            self.wf(),
        ensures
            match r {
                Ok(v) => self.kind() == FieldSize::Signed128 && v as int == self.kind().decode_int(
                    self.bytes(),
                ),
                Err(e) => self.kind() != FieldSize::Signed128 && e == (FieldValueError::WrongKind {
                    expected: FieldSize::Signed128,
                    actual: self.kind(),
                }),
            },
    {
        match self.size {
            FieldSize::Signed128 => {
                proof {
                    lemma_be_val_bound(self.value@);
                    lemma_pow256_values();
                    assert(self.value@.subrange(0, 16) =~= self.value@);
                }
                let u = be_decode(&self.value, 0, 16);
                // The bias does not fit in `i128`, so the halves of the
                // range are shifted back separately.
                let v: i128 = if u >= 0x80000000000000000000000000000000 {
                    (u - 0x80000000000000000000000000000000) as i128
                } else {
                    -((0x7FFFFFFFFFFFFFFFFFFFFFFFFFFFFFFF - u) as i128) - 1
                };
                Ok(v)
            },
            _ => Err(
                FieldValueError::WrongKind { expected: FieldSize::Signed128, actual: self.size },
            ),
        }
    }

    /// Read back the bytes of an array field of the given declared length.
    pub fn try_to_array(&self, len: usize) -> (r: Result<Vec<u8>, FieldValueError>)
        requires
            self.wf(),
        ensures
            match r {
                Ok(b) => self.kind() == FieldSize::Array(len) && b@ == self.bytes(),
                Err(e) => self.kind() != FieldSize::Array(len) && e == (match self.kind() {
                    FieldSize::Array(actual) => FieldValueError::WrongSize { expected: len, actual },
                    _ => FieldValueError::WrongKind {
                        expected: FieldSize::Array(len),
                        actual: self.kind(),
                    },
                }),
            },
    {
        match self.size {
            FieldSize::Array(n) => {
                if n == len {
                    Ok(vstd::slice::slice_to_vec(self.value.as_slice()))
                } else {
                    Err(FieldValueError::WrongSize { expected: len, actual: n })
                }
            },
            _ => Err(
                FieldValueError::WrongKind { expected: FieldSize::Array(len), actual: self.size },
            ),
        }
    }

    /// A fresh copy of this value.
    pub fn duplicate(&self) -> (r: FieldValue)
        ensures
            r.kind() == self.kind(),
            r.bytes() == self.bytes(),
    {
        FieldValue { size: self.size, value: vstd::slice::slice_to_vec(self.value.as_slice()) }
    }

    /// The default value of a kind: zero for integers, the all-zero array
    /// for arrays.
    pub fn default_of(kind: FieldSize) -> (r: FieldValue)
        ensures
            r.wf(),
            r.kind() == kind,
            r.bytes() == kind.default_bytes(),
    {
        match kind {
            FieldSize::Signed8 => Self::from_i8(0),
            FieldSize::Signed16 => Self::from_i16(0),
            FieldSize::Signed32 => Self::from_i32(0),
            FieldSize::Signed64 => Self::from_i64(0),
            FieldSize::Signed128 => Self::from_i128(0),
            FieldSize::Unsigned8 => Self::from_u8(0),
            FieldSize::Unsigned16 => Self::from_u16(0),
            FieldSize::Unsigned32 => Self::from_u32(0),
            FieldSize::Unsigned64 => Self::from_u64(0),
            FieldSize::Unsigned128 => Self::from_u128(0),
            FieldSize::Array(n) => {
                let v = FieldValue { size: kind, value: fill_bytes(n, 0) };
                proof {
                    assert(v.bytes() =~= kind.default_bytes());
                }
                v
            },
        }
    }

    /// The smallest value of a kind: the type minimum for integers, the
    /// all-zero array for arrays.  Every kind stores it as all-zero bytes.
    pub fn min_of(kind: FieldSize) -> (r: FieldValue)
        ensures
            r.wf(),
            r.kind() == kind,
            r.bytes() == kind.min_bytes(),
    {
        let w = kind.size();
        let v = FieldValue { size: kind, value: fill_bytes(w, 0) };
        proof {
            crate::kind::lemma_extreme_bytes(kind);
            assert(v.bytes() =~= kind.min_bytes());
        }
        v
    }

    /// The largest value of a kind: the type maximum for integers, the
    /// all-`0xFF` array for arrays.  Every kind stores it as all-`0xFF`
    /// bytes.
    pub fn max_of(kind: FieldSize) -> (r: FieldValue)
        ensures
            r.wf(),
            r.kind() == kind,
            r.bytes() == kind.max_bytes(),
    {
        let w = kind.size();
        let v = FieldValue { size: kind, value: fill_bytes(w, 0xFF) };
        proof {
            crate::kind::lemma_extreme_bytes(kind);
            assert(v.bytes() =~= kind.max_bytes());
        }
        v
    }

    /// A value of the given kind with every byte drawn at random.  Every
    /// byte string of the right width is a valid stored form, so the
    /// result is well formed whatever the generator returns.
    pub fn random(size: FieldSize) -> (r: FieldValue)
        ensures
            r.wf(),
            r.kind() == size,
    {
        let len = size.size();
        let mut value: Vec<u8> = Vec::new();
        let mut i: usize = 0;
        while i < len
            invariant
                i <= len,
                value@.len() == i,
            decreases len - i,
        {
            value.push(random_byte());
            i = i + 1;
        }
        FieldValue { size, value }
    }

    /// Borrow this value for rendering in the style of an equality check.
    pub fn assert_eq<'v>(&'v self) -> (r: FieldValueAssertEq<'v>)
        ensures
            r.target() == *self,
    {
        FieldValueAssertEq { value: self }
    }

    /// Borrow this value for rendering as a bare list of bytes.
    pub fn just_bytes<'v>(&'v self) -> (r: FieldValueJustBytes<'v>)
        ensures
            r.target() == *self,
    {
        FieldValueJustBytes { value: self }
    }
}

/// Relies on rand::random: one byte drawn from the thread-local generator.
/// Nothing is promised of the value.
#[verifier::external_body]
fn random_byte() -> u8 {
    rand::random::<u8>()
}

/// A vector of `n` copies of the byte `b`.
fn fill_bytes(n: usize, b: u8) -> (r: Vec<u8>)
    ensures
        r@ == Seq::new(n as nat, |i: int| b),
{
    let v: Vec<u8> = vec![b; n];
    proof {
        assert(v@ =~= Seq::new(n as nat, |i: int| b));
    }
    v
}

/// The rendering of one stored value as a literal of its native type:
/// signed integers in decimal with the width suffix, unsigned integers
/// as `0x`-prefixed full-width uppercase hex with the width suffix, and
/// arrays as a bracketed byte list whose first element carries the
/// element suffix.
pub open spec fn value_render(kind: FieldSize, bytes: Seq<u8>) -> Seq<char> {
    match kind {
        FieldSize::Signed8 => dec_int(kind.decode_int(bytes)) + seq!['_', 'i', '8'],
        FieldSize::Signed16 => dec_int(kind.decode_int(bytes)) + seq!['_', 'i', '1', '6'],
        FieldSize::Signed32 => dec_int(kind.decode_int(bytes)) + seq!['_', 'i', '3', '2'],
        FieldSize::Signed64 => dec_int(kind.decode_int(bytes)) + seq!['_', 'i', '6', '4'],
        FieldSize::Signed128 => dec_int(kind.decode_int(bytes)) + seq!['_', 'i', '1', '2', '8'],
        FieldSize::Unsigned8 => seq!['0', 'x'] + hex_bytes_upper(bytes) + seq!['_', 'u', '8'],
        FieldSize::Unsigned16 => seq!['0', 'x'] + hex_bytes_upper(bytes) + seq!['_', 'u', '1', '6'],
        FieldSize::Unsigned32 => seq!['0', 'x'] + hex_bytes_upper(bytes) + seq!['_', 'u', '3', '2'],
        FieldSize::Unsigned64 => seq!['0', 'x'] + hex_bytes_upper(bytes) + seq!['_', 'u', '6', '4'],
        FieldSize::Unsigned128 => seq!['0', 'x'] + hex_bytes_upper(bytes) + seq![
            '_',
            'u',
            '1',
            '2',
            '8',
        ],
        FieldSize::Array(_) => seq!['['] + array_items(bytes) + seq![']'],
    }
}

/// The elements of an array rendering: the first as `0xHH_u8`, the rest
/// as `, 0xHH`.
pub open spec fn array_items(bytes: Seq<u8>) -> Seq<char>
    decreases bytes.len(),
{
    if bytes.len() == 0 {
        Seq::empty()
    } else if bytes.len() == 1 {
        seq!['0', 'x'] + hex_byte_upper(bytes[0]) + seq!['_', 'u', '8']
    } else {
        array_items(bytes.drop_last()) + seq![',', ' ', '0', 'x'] + hex_byte_upper(bytes.last())
    }
}

/// The rendering used on the right-hand side of an equality check:
/// arrays behind a reference, everything else as the value itself.
pub open spec fn assert_eq_render(kind: FieldSize, bytes: Seq<u8>) -> Seq<char> {
    if kind.is_array() {
        seq!['&'] + value_render(kind, bytes)
    } else {
        value_render(kind, bytes)
    }
}

impl FieldValue {
    /// Render this value as a literal of its native type.
    pub fn render(&self) -> (r: String)
        requires
            self.wf(),
            self.kind() matches FieldSize::Array(n) ==> n >= 1,
        ensures
            r@ == value_render(self.kind(), self.bytes()),
    {
        let mut s = String::new();
        proof {
            assert(s@ =~= Seq::<char>::empty());
        }
        match self.size {
            FieldSize::Signed8 => {
                let v = match self.try_to_i8() {
                    Ok(v) => v,
                    Err(_) => vstd::pervasive::unreached(),
                };
                append_dec_i128(&mut s, v as i128);
                s.append("_i8");
                proof {
                    reveal_strlit("_i8");
                    assert("_i8"@ =~= seq!['_', 'i', '8']);
                    assert(s@ =~= value_render(self.kind(), self.bytes()));
                }
            },
            FieldSize::Signed16 => {
                let v = match self.try_to_i16() {
                    Ok(v) => v,
                    Err(_) => vstd::pervasive::unreached(),
                };
                append_dec_i128(&mut s, v as i128);
                s.append("_i16");
                proof {
                    reveal_strlit("_i16");
                    assert("_i16"@ =~= seq!['_', 'i', '1', '6']);
                    assert(s@ =~= value_render(self.kind(), self.bytes()));
                }
            },
            FieldSize::Signed32 => {
                let v = match self.try_to_i32() {
                    Ok(v) => v,
                    Err(_) => vstd::pervasive::unreached(),
                };
                append_dec_i128(&mut s, v as i128);
                s.append("_i32");
                proof {
                    reveal_strlit("_i32");
                    assert("_i32"@ =~= seq!['_', 'i', '3', '2']);
                    assert(s@ =~= value_render(self.kind(), self.bytes()));
                }
            },
            FieldSize::Signed64 => {
                let v = match self.try_to_i64() {
                    Ok(v) => v,
                    Err(_) => vstd::pervasive::unreached(),
                };
                append_dec_i128(&mut s, v as i128);
                s.append("_i64");
                proof {
                    reveal_strlit("_i64");
                    assert("_i64"@ =~= seq!['_', 'i', '6', '4']);
                    assert(s@ =~= value_render(self.kind(), self.bytes()));
                }
            },
            FieldSize::Signed128 => {
                let v = match self.try_to_i128() {
                    Ok(v) => v,
                    Err(_) => vstd::pervasive::unreached(),
                };
                append_dec_i128(&mut s, v);
                s.append("_i128");
                proof {
                    reveal_strlit("_i128");
                    assert("_i128"@ =~= seq!['_', 'i', '1', '2', '8']);
                    assert(s@ =~= value_render(self.kind(), self.bytes()));
                }
            },
            FieldSize::Unsigned8 => {
                self.append_hex_value(&mut s);
                s.append("_u8");
                proof {
                    reveal_strlit("_u8");
                    assert("_u8"@ =~= seq!['_', 'u', '8']);
                    assert(s@ =~= value_render(self.kind(), self.bytes()));
                }
            },
            FieldSize::Unsigned16 => {
                self.append_hex_value(&mut s);
                s.append("_u16");
                proof {
                    reveal_strlit("_u16");
                    assert("_u16"@ =~= seq!['_', 'u', '1', '6']);
                    assert(s@ =~= value_render(self.kind(), self.bytes()));
                }
            },
            FieldSize::Unsigned32 => {
                self.append_hex_value(&mut s);
                s.append("_u32");
                proof {
                    reveal_strlit("_u32");
                    assert("_u32"@ =~= seq!['_', 'u', '3', '2']);
                    assert(s@ =~= value_render(self.kind(), self.bytes()));
                }
            },
            FieldSize::Unsigned64 => {
                self.append_hex_value(&mut s);
                s.append("_u64");
                proof {
                    reveal_strlit("_u64");
                    assert("_u64"@ =~= seq!['_', 'u', '6', '4']);
                    assert(s@ =~= value_render(self.kind(), self.bytes()));
                }
            },
            FieldSize::Unsigned128 => {
                self.append_hex_value(&mut s);
                s.append("_u128");
                proof {
                    reveal_strlit("_u128");
                    assert("_u128"@ =~= seq!['_', 'u', '1', '2', '8']);
                    assert(s@ =~= value_render(self.kind(), self.bytes()));
                }
            },
            FieldSize::Array(_) => {
                s.append("[");
                proof {
                    reveal_strlit("[");
                    assert(s@ =~= seq!['[']);
                    assert(self.value@.take(0) =~= Seq::<u8>::empty());
                }
                let n = self.value.len();
                let mut i: usize = 0;
                while i < n
                    invariant
                        i <= n,
                        n == self.value@.len(),
                        n >= 1,
                        s@ == seq!['['] + array_items(self.value@.take(i as int)),
                    decreases n - i,
                {
                    let ghost pre = s@;
                    if i == 0 {
                        s.append("0x");
                        append_hex_byte(&mut s, self.value[0]);
                        s.append("_u8");
                        proof {
                            reveal_strlit("0x");
                            reveal_strlit("_u8");
                            assert("0x"@ =~= seq!['0', 'x']);
                            assert("_u8"@ =~= seq!['_', 'u', '8']);
                            assert(self.value@.take(1) =~= seq![self.value@[0]]);
                            assert(s@ =~= seq!['['] + array_items(self.value@.take(1)));
                        }
                    } else {
                        s.append(", 0x");
                        append_hex_byte(&mut s, self.value[i]);
                        proof {
                            reveal_strlit(", 0x");
                            assert(", 0x"@ =~= seq![',', ' ', '0', 'x']);
                            assert(self.value@.take(i + 1).drop_last() =~= self.value@.take(
                                i as int,
                            ));
                            assert(self.value@.take(i + 1).last() == self.value@[i as int]);
                            assert(s@ =~= seq!['['] + array_items(self.value@.take(i + 1)));
                        }
                    }
                    i = i + 1;
                }
                s.append("]");
                proof {
                    reveal_strlit("]");
                    assert("]"@ =~= seq![']']);
                    assert(self.value@.take(n as int) =~= self.value@);
                    assert(s@ =~= value_render(self.kind(), self.bytes()));
                }
            },
        }
        s
    }

    /// Append this integer value's bytes as `0x`-prefixed uppercase hex.
    fn append_hex_value(&self, s: &mut String)
        ensures
            final(s)@ == old(s)@ + seq!['0', 'x'] + hex_bytes_upper(self.bytes()),
    {
        s.append("0x");
        proof {
            reveal_strlit("0x");
            assert("0x"@ =~= seq!['0', 'x']);
        }
        let w = self.value.len();
        append_hex_range(s, self.value.as_slice(), 0, w);
        proof {
            assert(self.value@.subrange(0, w as int) =~= self.value@);
            assert(final(s)@ =~= old(s)@ + seq!['0', 'x'] + hex_bytes_upper(self.bytes()));
        }
    }
}

/// Append the decimal rendering of a signed value, minus sign included.
fn append_dec_i128(s: &mut String, v: i128)
    ensures
        final(s)@ == old(s)@ + dec_int(v as int),
{
    if v >= 0 {
        append_dec(s, v as u128);
    } else {
        s.append("-");
        proof {
            reveal_strlit("-");
            assert("-"@ =~= seq!['-']);
        }
        let m: u128 = ((-(v + 1)) as u128) + 1;
        append_dec(s, m);
        proof {
            assert(m as nat == (-(v as int)) as nat);
            assert(old(s)@ + dec_int(v as int) =~= (old(s)@ + seq!['-']) + dec_nat(m as nat));
        }
    }
}

/// A borrowed `FieldValue` that renders in the style of the right-hand
/// side of an equality check: like the value itself, but with arrays
/// shown behind a reference.
#[derive(Copy, Clone, Debug)]
pub struct FieldValueAssertEq<'v> {
    value: &'v FieldValue,
}

impl<'v> FieldValueAssertEq<'v> {
    /// The value being rendered.
    pub closed spec fn target(self) -> FieldValue {
        *self.value
    }
}

/// A borrowed `FieldValue` that renders as a bare comma-separated list of
/// its bytes.
#[derive(Copy, Clone, Debug)]
pub struct FieldValueJustBytes<'v> {
    value: &'v FieldValue,
}

impl<'v> FieldValueAssertEq<'v> {
    /// Render the value the way it reads on the right-hand side of an
    /// equality check.
    pub fn render(&self) -> (r: String)
        requires
            self.target().wf(),
            self.target().kind() matches FieldSize::Array(n) ==> n >= 1,
        ensures
            r@ == assert_eq_render(self.target().kind(), self.target().bytes()),
    {
        match self.value.size {
            FieldSize::Array(_) => {
                let mut s = String::new();
                s.append("&");
                proof {
                    reveal_strlit("&");
                    assert(s@ =~= seq!['&']);
                }
                let body = self.value.render();
                let r = s.concat(body.as_str());
                proof {
                    assert(r@ =~= assert_eq_render(self.target().kind(), self.target().bytes()));
                }
                r
            },
            _ => self.value.render(),
        }
    }
}

impl<'v> FieldValueJustBytes<'v> {
    /// The value being rendered.
    pub closed spec fn target(self) -> FieldValue {
        *self.value
    }

    /// Render the value as a bare comma-separated list of its bytes in
    /// `0x`-prefixed uppercase hex.
    pub fn render(&self) -> (r: String)
        ensures
            r@ == crate::render::joined(
                crate::render::RawDebugFormat::PrettyUpperHex,
                self.target().bytes(),
            ),
    {
        let mut s = String::new();
        let n = self.value.value.len();
        let mut i: usize = 0;
        proof {
            assert(self.value.value@.take(0) =~= Seq::<u8>::empty());
            assert(s@ =~= Seq::<char>::empty());
        }
        while i < n
            invariant
                i <= n,
                n == self.value.value@.len(),
                s@ == crate::render::joined(
                    crate::render::RawDebugFormat::PrettyUpperHex,
                    self.value.value@.take(i as int),
                ),
            decreases n - i,
        {
            let ghost pre = s@;
            if i > 0 {
                s.append(", ");
                proof {
                    reveal_strlit(", ");
                    assert(", "@ =~= seq![',', ' ']);
                }
            }
            crate::render::append_byte_text(
                &mut s,
                crate::render::RawDebugFormat::PrettyUpperHex,
                self.value.value[i],
            );
            proof {
                let fmt = crate::render::RawDebugFormat::PrettyUpperHex;
                let bs = self.value.value@;
                assert(bs.take(i + 1).drop_last() =~= bs.take(i as int));
                assert(bs.take(i + 1).last() == bs[i as int]);
                if i > 0 {
                    assert(s@ =~= (pre + seq![',', ' ']) + crate::render::byte_text(
                        fmt,
                        bs[i as int],
                    ));
                    assert(s@ =~= crate::render::joined(fmt, bs.take(i + 1)));
                } else {
                    assert(bs.take(1) =~= seq![bs[0]]);
                    assert(s@ =~= crate::render::joined(fmt, bs.take(1)));
                }
            }
            i = i + 1;
        }
        proof {
            assert(self.value.value@.take(n as int) =~= self.value.value@);
        }
        s
    }
}

} // verus!
