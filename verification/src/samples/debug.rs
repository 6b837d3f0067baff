//! Sample keys showing the diagnostic formats of the raw buffer.
//!
//! The five key types here share one field list and differ only in how
//! `raw_debug` renders the buffer: as a decimal byte list, in bare or
//! `0x`-prefixed hexadecimal, lowercase or uppercase.

use vstd::prelude::*;
use crate::bytes::{be_seq, be_val, be_encode, lemma_be_seq_len, lemma_pow256_values};
use crate::key::{padded, spliced};
use crate::codec::{
    append_bytes, pad_bytes, write_bytes, read_u8, read_u16, read_u32, read_u64, read_u128,
    write_u8, write_u16, write_u32, write_u64, write_u128,
};
use crate::render::{RawDebugFormat, list_render, render_list};

verus! {


/// The packed byte layout of this field list.
pub open spec fn debug_layout(byte: u8, word: u16, long: u32, quad: u64, octo: u128, array: Seq<u8>) -> Seq<u8> {
    be_seq(byte as nat, 1) + be_seq(word as nat, 2) + be_seq(long as nat, 4) + be_seq(quad as nat, 8) + be_seq(octo as nat, 16) + array
}

fn debug_build(byte: u8, word: u16, long: u32, quad: u64, octo: u128, array: &[u8]) -> (r: Vec<u8>)
    requires
        array@.len() == 5,
    ensures
        r@ == debug_layout(byte, word, long, quad, octo, array@),
        r@.len() == 36,
{
    proof {
        lemma_pow256_values();
        lemma_be_seq_len(byte as nat, 1);
        lemma_be_seq_len(word as nat, 2);
        lemma_be_seq_len(long as nat, 4);
        lemma_be_seq_len(quad as nat, 8);
        lemma_be_seq_len(octo as nat, 16);
    }
    let mut b = be_encode(byte as u128, 1);
    let t = be_encode(word as u128, 2);
    append_bytes(&mut b, t.as_slice());
    let t = be_encode(long as u128, 4);
    append_bytes(&mut b, t.as_slice());
    let t = be_encode(quad as u128, 8);
    append_bytes(&mut b, t.as_slice());
    let t = be_encode(octo, 16);
    append_bytes(&mut b, t.as_slice());
    append_bytes(&mut b, array);
    proof {
        assert(b@ =~= debug_layout(byte, word, long, quad, octo, array@));
    }
    b
}

/// A key whose raw bytes print as a decimal list.
#[derive(Clone, Debug, PartialEq, Eq, Hash)]
pub struct StdDebugKey {
    bytes: Vec<u8>,
}

impl View for StdDebugKey {
    type V = Seq<u8>;

    closed spec fn view(&self) -> Seq<u8> {
        self.bytes@
    }
}

impl StdDebugKey {
    /// The size in bytes of the key data.
    pub const KEY_LENGTH: usize = 36;

    /// A buffer of exactly the key's width.
    pub open spec fn wf(self) -> bool {
        self@.len() == 36
    }

    /// Pack one value per field into a fresh key.
    pub fn new(byte: u8, word: u16, long: u32, quad: u64, octo: u128, array: [u8; 5]) -> (r: Self)
        ensures
            r.wf(),
            r@ == debug_layout(byte, word, long, quad, octo, array@),
    {
        Self { bytes: debug_build(byte, word, long, quad, octo, array.as_slice()) }
    }

    /// Build a key from an argument structure, typically one where
    /// omitted fields were left at their defaults.
    pub fn from_args(args: StdDebugKeyArgs) -> (r: Self)
        ensures
            r.wf(),
            r@ == debug_layout(args.byte, args.word, args.long, args.quad, args.octo, args.array@),
    {
        Self { bytes: debug_build(args.byte, args.word, args.long, args.quad, args.octo, args.array.as_slice()) }
    }

    /// Get the byte value from the key.
    pub fn byte(&self) -> (r: u8)
        requires
            self.wf(),
        ensures
            r as nat == be_val(self@.subrange(0, 1)),
    {
        read_u8(&self.bytes, 0)
    }

    /// Set the byte value in the key, touching no other byte.
    pub fn set_byte(&mut self, value: u8)
        requires
            old(self).wf(),
        ensures
            final(self).wf(),
            final(self)@ == spliced(old(self)@, 0, be_seq(value as nat, 1)),
    {
        proof {
            crate::bytes::lemma_be_seq_len(value as nat, 1);
        }
        write_u8(&mut self.bytes, 0, value)
    }

    /// Get the word value from the key.
    pub fn word(&self) -> (r: u16)
        requires
            self.wf(),
        ensures
            r as nat == be_val(self@.subrange(1, 3)),
    {
        read_u16(&self.bytes, 1)
    }

    /// Set the word value in the key, touching no other byte.
    pub fn set_word(&mut self, value: u16)
        requires
            old(self).wf(),
        ensures
            final(self).wf(),
            final(self)@ == spliced(old(self)@, 1, be_seq(value as nat, 2)),
    {
        proof {
            crate::bytes::lemma_be_seq_len(value as nat, 2);
        }
        write_u16(&mut self.bytes, 1, value)
    }

    /// Get the long value from the key.
    pub fn long(&self) -> (r: u32)
        requires
            self.wf(),
        ensures
            r as nat == be_val(self@.subrange(3, 7)),
    {
        read_u32(&self.bytes, 3)
    }

    /// Set the long value in the key, touching no other byte.
    pub fn set_long(&mut self, value: u32)
        requires
            old(self).wf(),
        ensures
            final(self).wf(),
            final(self)@ == spliced(old(self)@, 3, be_seq(value as nat, 4)),
    {
        proof {
            crate::bytes::lemma_be_seq_len(value as nat, 4);
        }
        write_u32(&mut self.bytes, 3, value)
    }

    /// Get the quad value from the key.
    pub fn quad(&self) -> (r: u64)
        requires
            self.wf(),
        ensures
            r as nat == be_val(self@.subrange(7, 15)),
    {
        read_u64(&self.bytes, 7)
    }

    /// Set the quad value in the key, touching no other byte.
    pub fn set_quad(&mut self, value: u64)
        requires
            old(self).wf(),
        ensures
            final(self).wf(),
            final(self)@ == spliced(old(self)@, 7, be_seq(value as nat, 8)),
    {
        proof {
            crate::bytes::lemma_be_seq_len(value as nat, 8);
        }
        write_u64(&mut self.bytes, 7, value)
    }

    /// Get the octo value from the key.
    pub fn octo(&self) -> (r: u128)
        requires
            self.wf(),
        ensures
            r as nat == be_val(self@.subrange(15, 31)),
    {
        read_u128(&self.bytes, 15)
    }

    /// Set the octo value in the key, touching no other byte.
    pub fn set_octo(&mut self, value: u128)
        requires
            old(self).wf(),
        ensures
            final(self).wf(),
            final(self)@ == spliced(old(self)@, 15, be_seq(value as nat, 16)),
    {
        proof {
            crate::bytes::lemma_be_seq_len(value as nat, 16);
        }
        write_u128(&mut self.bytes, 15, value)
    }

    /// Borrow the array bytes of the key.
    pub fn array(&self) -> (r: &[u8])
        requires
            self.wf(),
        ensures
            r@ == self@.subrange(31, 36),
    {
        vstd::slice::slice_subrange(self.bytes.as_slice(), 31, 36)
    }

    /// Set the array bytes in the key, touching no other byte.
    pub fn set_array(&mut self, value: &[u8])
        requires
            old(self).wf(),
            value@.len() == 5,
        ensures
            final(self).wf(),
            final(self)@ == spliced(old(self)@, 31, value@),
    {
        write_bytes(&mut self.bytes, 31, value)
    }

    /// Ingest any byte slice: short input is zero-padded, long input
    /// truncated.
    pub fn from_slice(raw: &[u8]) -> (r: Self)
        ensures
            r.wf(),
            r@ == padded(raw@, 36),
    {
        Self { bytes: pad_bytes(raw, 36) }
    }

    /// The full key buffer, borrowed.
    pub fn as_bytes(&self) -> (r: &[u8])
        ensures
            r@ == self@,
    {
        self.bytes.as_slice()
    }

    /// The full key buffer, owned.
    pub fn to_vec(&self) -> (r: Vec<u8>)
        ensures
            r@ == self@,
    {
        vstd::slice::slice_to_vec(self.bytes.as_slice())
    }

    /// The smallest encodable key: the all-zero buffer.
    pub fn min_key() -> (r: Self)
        ensures
            r.wf(),
            r@ == Seq::new(36, |i: int| 0u8),
    {
        let r = Self { bytes: vec![0u8; 36] };
        proof {
            assert(r@ =~= Seq::new(36, |i: int| 0u8));
        }
        r
    }

    /// The largest encodable key: the all-`0xFF` buffer.
    pub fn max_key() -> (r: Self)
        ensures
            r.wf(),
            r@ == Seq::new(36, |i: int| 0xFFu8),
    {
        let r = Self { bytes: vec![0xFFu8; 36] };
        proof {
            assert(r@ =~= Seq::new(36, |i: int| 0xFFu8));
        }
        r
    }

    /// The raw key bytes in this key type's diagnostic format.
    pub fn raw_debug(&self) -> (r: String)
        ensures
            r@ == list_render(RawDebugFormat::Standard, self@),
    {
        render_list(RawDebugFormat::Standard, self.bytes.as_slice())
    }
}

impl Default for StdDebugKey {
    /// Every field at its configured default.
    fn default() -> (r: StdDebugKey)
        ensures
            r.wf(),
            r@ == debug_layout(0u8, 0u16, 0u32, 0x123456789ABCDEF0u64, 0u128, Seq::new(5, |i: int| 0xFFu8)),
    {
        StdDebugKey { bytes: debug_build(0u8, 0u16, 0u32, 0x123456789ABCDEF0u64, 0u128, [0xFFu8; 5].as_slice()) }
    }
}

/// Argument structure used to create [`StdDebugKey`] values, with the
/// configured per-field defaults.
#[derive(Copy, Clone, Debug, PartialEq, Eq)]
pub struct StdDebugKeyArgs {
    pub byte: u8,
    pub word: u16,
    pub long: u32,
    pub quad: u64,
    pub octo: u128,
    pub array: [u8; 5],
}

impl Default for StdDebugKeyArgs {
    /// Every argument at its field's configured default.
    fn default() -> (r: StdDebugKeyArgs)
        ensures
            r.byte == 0u8,
            r.word == 0u16,
            r.long == 0u32,
            r.quad == 0x123456789ABCDEF0u64,
            r.octo == 0u128,
            r.array@ == Seq::new(5, |i: int| 0xFFu8),
    {
        let r = StdDebugKeyArgs {
            byte: 0u8,
            word: 0u16,
            long: 0u32,
            quad: 0x123456789ABCDEF0u64,
            octo: 0u128,
            array: [0xFFu8; 5],
        };
        proof {
            assert(r.array@ =~= Seq::new(5, |i: int| 0xFFu8));
        }
        r
    }
}

/// A key whose raw bytes print in bare lowercase hexadecimal.
#[derive(Clone, Debug, PartialEq, Eq, Hash)]
pub struct LowerHexDebugKey {
    bytes: Vec<u8>,
}

impl View for LowerHexDebugKey {
    type V = Seq<u8>;

    closed spec fn view(&self) -> Seq<u8> {
        self.bytes@
    }
}

impl LowerHexDebugKey {
    /// The size in bytes of the key data.
    pub const KEY_LENGTH: usize = 36;

    /// A buffer of exactly the key's width.
    pub open spec fn wf(self) -> bool {
        self@.len() == 36
    }

    /// Pack one value per field into a fresh key.
    pub fn new(byte: u8, word: u16, long: u32, quad: u64, octo: u128, array: [u8; 5]) -> (r: Self)
        ensures
            r.wf(),
            r@ == debug_layout(byte, word, long, quad, octo, array@),
    {
        Self { bytes: debug_build(byte, word, long, quad, octo, array.as_slice()) }
    }

    /// Build a key from an argument structure, typically one where
    /// omitted fields were left at their defaults.
    pub fn from_args(args: LowerHexDebugKeyArgs) -> (r: Self)
        ensures
            r.wf(),
            r@ == debug_layout(args.byte, args.word, args.long, args.quad, args.octo, args.array@),
    {
        Self { bytes: debug_build(args.byte, args.word, args.long, args.quad, args.octo, args.array.as_slice()) }
    }

    /// Get the byte value from the key.
    pub fn byte(&self) -> (r: u8)
        requires
            self.wf(),
        ensures
            r as nat == be_val(self@.subrange(0, 1)),
    {
        read_u8(&self.bytes, 0)
    }

    /// Set the byte value in the key, touching no other byte.
    pub fn set_byte(&mut self, value: u8)
        requires
            old(self).wf(),
        ensures
            final(self).wf(),
            final(self)@ == spliced(old(self)@, 0, be_seq(value as nat, 1)),
    {
        proof {
            crate::bytes::lemma_be_seq_len(value as nat, 1);
        }
        write_u8(&mut self.bytes, 0, value)
    }

    /// Get the word value from the key.
    pub fn word(&self) -> (r: u16)
        requires
            self.wf(),
        ensures
            r as nat == be_val(self@.subrange(1, 3)),
    {
        read_u16(&self.bytes, 1)
    }

    /// Set the word value in the key, touching no other byte.
    pub fn set_word(&mut self, value: u16)
        requires
            old(self).wf(),
        ensures
            final(self).wf(),
            final(self)@ == spliced(old(self)@, 1, be_seq(value as nat, 2)),
    {
        proof {
            crate::bytes::lemma_be_seq_len(value as nat, 2);
        }
        write_u16(&mut self.bytes, 1, value)
    }

    /// Get the long value from the key.
    pub fn long(&self) -> (r: u32)
        requires
            self.wf(),
        ensures
            r as nat == be_val(self@.subrange(3, 7)),
    {
        read_u32(&self.bytes, 3)
    }

    /// Set the long value in the key, touching no other byte.
    pub fn set_long(&mut self, value: u32)
        requires
            old(self).wf(),
        ensures
            final(self).wf(),
            final(self)@ == spliced(old(self)@, 3, be_seq(value as nat, 4)),
    {
        proof {
            crate::bytes::lemma_be_seq_len(value as nat, 4);
        }
        write_u32(&mut self.bytes, 3, value)
    }

    /// Get the quad value from the key.
    pub fn quad(&self) -> (r: u64)
        requires
            self.wf(),
        ensures
            r as nat == be_val(self@.subrange(7, 15)),
    {
        read_u64(&self.bytes, 7)
    }

    /// Set the quad value in the key, touching no other byte.
    pub fn set_quad(&mut self, value: u64)
        requires
            old(self).wf(),
        ensures
            final(self).wf(),
            final(self)@ == spliced(old(self)@, 7, be_seq(value as nat, 8)),
    {
        proof {
            crate::bytes::lemma_be_seq_len(value as nat, 8);
        }
        write_u64(&mut self.bytes, 7, value)
    }

    /// Get the octo value from the key.
    pub fn octo(&self) -> (r: u128)
        requires
            self.wf(),
        ensures
            r as nat == be_val(self@.subrange(15, 31)),
    {
        read_u128(&self.bytes, 15)
    }

    /// Set the octo value in the key, touching no other byte.
    pub fn set_octo(&mut self, value: u128)
        requires
            old(self).wf(),
        ensures
            final(self).wf(),
            final(self)@ == spliced(old(self)@, 15, be_seq(value as nat, 16)),
    {
        proof {
            crate::bytes::lemma_be_seq_len(value as nat, 16);
        }
        write_u128(&mut self.bytes, 15, value)
    }

    /// Borrow the array bytes of the key.
    pub fn array(&self) -> (r: &[u8])
        requires
            self.wf(),
        ensures
            r@ == self@.subrange(31, 36),
    {
        vstd::slice::slice_subrange(self.bytes.as_slice(), 31, 36)
    }

    /// Set the array bytes in the key, touching no other byte.
    pub fn set_array(&mut self, value: &[u8])
        requires
            old(self).wf(),
            value@.len() == 5,
        ensures
            final(self).wf(),
            final(self)@ == spliced(old(self)@, 31, value@),
    {
        write_bytes(&mut self.bytes, 31, value)
    }

    /// Ingest any byte slice: short input is zero-padded, long input
    /// truncated.
    pub fn from_slice(raw: &[u8]) -> (r: Self)
        ensures
            r.wf(),
            r@ == padded(raw@, 36),
    {
        Self { bytes: pad_bytes(raw, 36) }
    }

    /// The full key buffer, borrowed.
    pub fn as_bytes(&self) -> (r: &[u8])
        ensures
            r@ == self@,
    {
        self.bytes.as_slice()
    }

    /// The full key buffer, owned.
    pub fn to_vec(&self) -> (r: Vec<u8>)
        ensures
            r@ == self@,
    {
        vstd::slice::slice_to_vec(self.bytes.as_slice())
    }

    /// The smallest encodable key: the all-zero buffer.
    pub fn min_key() -> (r: Self)
        ensures
            r.wf(),
            r@ == Seq::new(36, |i: int| 0u8),
    {
        let r = Self { bytes: vec![0u8; 36] };
        proof {
            assert(r@ =~= Seq::new(36, |i: int| 0u8));
        }
        r
    }

    /// The largest encodable key: the all-`0xFF` buffer.
    pub fn max_key() -> (r: Self)
        ensures
            r.wf(),
            r@ == Seq::new(36, |i: int| 0xFFu8),
    {
        let r = Self { bytes: vec![0xFFu8; 36] };
        proof {
            assert(r@ =~= Seq::new(36, |i: int| 0xFFu8));
        }
        r
    }

    /// The raw key bytes in this key type's diagnostic format.
    pub fn raw_debug(&self) -> (r: String)
        ensures
            r@ == list_render(RawDebugFormat::LowerHex, self@),
    {
        render_list(RawDebugFormat::LowerHex, self.bytes.as_slice())
    }
}

impl Default for LowerHexDebugKey {
    /// Every field at its configured default.
    fn default() -> (r: LowerHexDebugKey)
        ensures
            r.wf(),
            r@ == debug_layout(0u8, 0u16, 0u32, 0x123456789ABCDEF0u64, 0u128, Seq::new(5, |i: int| 0xFFu8)),
    {
        LowerHexDebugKey { bytes: debug_build(0u8, 0u16, 0u32, 0x123456789ABCDEF0u64, 0u128, [0xFFu8; 5].as_slice()) }
    }
}

/// Argument structure used to create [`LowerHexDebugKey`] values, with the
/// configured per-field defaults.
#[derive(Copy, Clone, Debug, PartialEq, Eq)]
pub struct LowerHexDebugKeyArgs {
    pub byte: u8,
    pub word: u16,
    pub long: u32,
    pub quad: u64,
    pub octo: u128,
    pub array: [u8; 5],
}

impl Default for LowerHexDebugKeyArgs {
    /// Every argument at its field's configured default.
    fn default() -> (r: LowerHexDebugKeyArgs)
        ensures
            r.byte == 0u8,
            r.word == 0u16,
            r.long == 0u32,
            r.quad == 0x123456789ABCDEF0u64,
            r.octo == 0u128,
            r.array@ == Seq::new(5, |i: int| 0xFFu8),
    {
        let r = LowerHexDebugKeyArgs {
            byte: 0u8,
            word: 0u16,
            long: 0u32,
            quad: 0x123456789ABCDEF0u64,
            octo: 0u128,
            array: [0xFFu8; 5],
        };
        proof {
            assert(r.array@ =~= Seq::new(5, |i: int| 0xFFu8));
        }
        r
    }
}

/// A key whose raw bytes print in bare uppercase hexadecimal.
#[derive(Clone, Debug, PartialEq, Eq, Hash)]
pub struct UpperHexDebugKey {
    bytes: Vec<u8>,
}

impl View for UpperHexDebugKey {
    type V = Seq<u8>;

    closed spec fn view(&self) -> Seq<u8> {
        self.bytes@
    }
}

impl UpperHexDebugKey {
    /// The size in bytes of the key data.
    pub const KEY_LENGTH: usize = 36;

    /// A buffer of exactly the key's width.
    pub open spec fn wf(self) -> bool {
        self@.len() == 36
    }

    /// Pack one value per field into a fresh key.
    pub fn new(byte: u8, word: u16, long: u32, quad: u64, octo: u128, array: [u8; 5]) -> (r: Self)
        ensures
            r.wf(),
            r@ == debug_layout(byte, word, long, quad, octo, array@),
    {
        Self { bytes: debug_build(byte, word, long, quad, octo, array.as_slice()) }
    }

    /// Build a key from an argument structure, typically one where
    /// omitted fields were left at their defaults.
    pub fn from_args(args: UpperHexDebugKeyArgs) -> (r: Self)
        ensures
            r.wf(),
            r@ == debug_layout(args.byte, args.word, args.long, args.quad, args.octo, args.array@),
    {
        Self { bytes: debug_build(args.byte, args.word, args.long, args.quad, args.octo, args.array.as_slice()) }
    }

    /// Get the byte value from the key.
    pub fn byte(&self) -> (r: u8)
        requires
            self.wf(),
        ensures
            r as nat == be_val(self@.subrange(0, 1)),
    {
        read_u8(&self.bytes, 0)
    }

    /// Set the byte value in the key, touching no other byte.
    pub fn set_byte(&mut self, value: u8)
        requires
            old(self).wf(),
        ensures
            final(self).wf(),
            final(self)@ == spliced(old(self)@, 0, be_seq(value as nat, 1)),
    {
        proof {
            crate::bytes::lemma_be_seq_len(value as nat, 1);
        }
        write_u8(&mut self.bytes, 0, value)
    }

    /// Get the word value from the key.
    pub fn word(&self) -> (r: u16)
        requires
            self.wf(),
        ensures
            r as nat == be_val(self@.subrange(1, 3)),
    {
        read_u16(&self.bytes, 1)
    }

    /// Set the word value in the key, touching no other byte.
    pub fn set_word(&mut self, value: u16)
        requires
            old(self).wf(),
        ensures
            final(self).wf(),
            final(self)@ == spliced(old(self)@, 1, be_seq(value as nat, 2)),
    {
        proof {
            crate::bytes::lemma_be_seq_len(value as nat, 2);
        }
        write_u16(&mut self.bytes, 1, value)
    }

    /// Get the long value from the key.
    pub fn long(&self) -> (r: u32)
        requires
            self.wf(),
        ensures
            r as nat == be_val(self@.subrange(3, 7)),
    {
        read_u32(&self.bytes, 3)
    }

    /// Set the long value in the key, touching no other byte.
    pub fn set_long(&mut self, value: u32)
        requires
            old(self).wf(),
        ensures
            final(self).wf(),
            final(self)@ == spliced(old(self)@, 3, be_seq(value as nat, 4)),
    {
        proof {
            crate::bytes::lemma_be_seq_len(value as nat, 4);
        }
        write_u32(&mut self.bytes, 3, value)
    }

    /// Get the quad value from the key.
    pub fn quad(&self) -> (r: u64)
        requires
            self.wf(),
        ensures
            r as nat == be_val(self@.subrange(7, 15)),
    {
        read_u64(&self.bytes, 7)
    }

    /// Set the quad value in the key, touching no other byte.
    pub fn set_quad(&mut self, value: u64)
        requires
            old(self).wf(),
        ensures
            final(self).wf(),
            final(self)@ == spliced(old(self)@, 7, be_seq(value as nat, 8)),
    {
        proof {
            crate::bytes::lemma_be_seq_len(value as nat, 8);
        }
        write_u64(&mut self.bytes, 7, value)
    }

    /// Get the octo value from the key.
    pub fn octo(&self) -> (r: u128)
        requires
            self.wf(),
        ensures
            r as nat == be_val(self@.subrange(15, 31)),
    {
        read_u128(&self.bytes, 15)
    }

    /// Set the octo value in the key, touching no other byte.
    pub fn set_octo(&mut self, value: u128)
        requires
            old(self).wf(),
        ensures
            final(self).wf(),
            final(self)@ == spliced(old(self)@, 15, be_seq(value as nat, 16)),
    {
        proof {
            crate::bytes::lemma_be_seq_len(value as nat, 16);
        }
        write_u128(&mut self.bytes, 15, value)
    }

    /// Borrow the array bytes of the key.
    pub fn array(&self) -> (r: &[u8])
        requires
            self.wf(),
        ensures
            r@ == self@.subrange(31, 36),
    {
        vstd::slice::slice_subrange(self.bytes.as_slice(), 31, 36)
    }

    /// Set the array bytes in the key, touching no other byte.
    pub fn set_array(&mut self, value: &[u8])
        requires
            old(self).wf(),
            value@.len() == 5,
        ensures
            final(self).wf(),
            final(self)@ == spliced(old(self)@, 31, value@),
    {
        write_bytes(&mut self.bytes, 31, value)
    }

    /// Ingest any byte slice: short input is zero-padded, long input
    /// truncated.
    pub fn from_slice(raw: &[u8]) -> (r: Self)
        ensures
            r.wf(),
            r@ == padded(raw@, 36),
    {
        Self { bytes: pad_bytes(raw, 36) }
    }

    /// The full key buffer, borrowed.
    pub fn as_bytes(&self) -> (r: &[u8])
        ensures
            r@ == self@,
    {
        self.bytes.as_slice()
    }

    /// The full key buffer, owned.
    pub fn to_vec(&self) -> (r: Vec<u8>)
        ensures
            r@ == self@,
    {
        vstd::slice::slice_to_vec(self.bytes.as_slice())
    }

    /// The smallest encodable key: the all-zero buffer.
    pub fn min_key() -> (r: Self)
        ensures
            r.wf(),
            r@ == Seq::new(36, |i: int| 0u8),
    {
        let r = Self { bytes: vec![0u8; 36] };
        proof {
            assert(r@ =~= Seq::new(36, |i: int| 0u8));
        }
        r
    }

    /// The largest encodable key: the all-`0xFF` buffer.
    pub fn max_key() -> (r: Self)
        ensures
            r.wf(),
            r@ == Seq::new(36, |i: int| 0xFFu8),
    {
        let r = Self { bytes: vec![0xFFu8; 36] };
        proof {
            assert(r@ =~= Seq::new(36, |i: int| 0xFFu8));
        }
        r
    }

    /// The raw key bytes in this key type's diagnostic format.
    pub fn raw_debug(&self) -> (r: String)
        ensures
            r@ == list_render(RawDebugFormat::UpperHex, self@),
    {
        render_list(RawDebugFormat::UpperHex, self.bytes.as_slice())
    }
}

impl Default for UpperHexDebugKey {
    /// Every field at its configured default.
    fn default() -> (r: UpperHexDebugKey)
        ensures
            r.wf(),
            r@ == debug_layout(0u8, 0u16, 0u32, 0x123456789ABCDEF0u64, 0u128, Seq::new(5, |i: int| 0xFFu8)),
    {
        UpperHexDebugKey { bytes: debug_build(0u8, 0u16, 0u32, 0x123456789ABCDEF0u64, 0u128, [0xFFu8; 5].as_slice()) }
    }
}

/// Argument structure used to create [`UpperHexDebugKey`] values, with the
/// configured per-field defaults.
#[derive(Copy, Clone, Debug, PartialEq, Eq)]
pub struct UpperHexDebugKeyArgs {
    pub byte: u8,
    pub word: u16,
    pub long: u32,
    pub quad: u64,
    pub octo: u128,
    pub array: [u8; 5],
}

impl Default for UpperHexDebugKeyArgs {
    /// Every argument at its field's configured default.
    fn default() -> (r: UpperHexDebugKeyArgs)
        ensures
            r.byte == 0u8,
            r.word == 0u16,
            r.long == 0u32,
            r.quad == 0x123456789ABCDEF0u64,
            r.octo == 0u128,
            r.array@ == Seq::new(5, |i: int| 0xFFu8),
    {
        let r = UpperHexDebugKeyArgs {
            byte: 0u8,
            word: 0u16,
            long: 0u32,
            quad: 0x123456789ABCDEF0u64,
            octo: 0u128,
            array: [0xFFu8; 5],
        };
        proof {
            assert(r.array@ =~= Seq::new(5, |i: int| 0xFFu8));
        }
        r
    }
}

/// A key whose raw bytes print as `0x`-prefixed lowercase pairs.
#[derive(Clone, Debug, PartialEq, Eq, Hash)]
pub struct PrettyLowerHexDebugKey {
    bytes: Vec<u8>,
}

impl View for PrettyLowerHexDebugKey {
    type V = Seq<u8>;

    closed spec fn view(&self) -> Seq<u8> {
        self.bytes@
    }
}

impl PrettyLowerHexDebugKey {
    /// The size in bytes of the key data.
    pub const KEY_LENGTH: usize = 36;

    /// A buffer of exactly the key's width.
    pub open spec fn wf(self) -> bool {
        self@.len() == 36
    }

    /// Pack one value per field into a fresh key.
    pub fn new(byte: u8, word: u16, long: u32, quad: u64, octo: u128, array: [u8; 5]) -> (r: Self)
        ensures
            r.wf(),
            r@ == debug_layout(byte, word, long, quad, octo, array@),
    {
        Self { bytes: debug_build(byte, word, long, quad, octo, array.as_slice()) }
    }

    /// Build a key from an argument structure, typically one where
    /// omitted fields were left at their defaults.
    pub fn from_args(args: PrettyLowerHexDebugKeyArgs) -> (r: Self)
        ensures
            r.wf(),
            r@ == debug_layout(args.byte, args.word, args.long, args.quad, args.octo, args.array@),
    {
        Self { bytes: debug_build(args.byte, args.word, args.long, args.quad, args.octo, args.array.as_slice()) }
    }

    /// Get the byte value from the key.
    pub fn byte(&self) -> (r: u8)
        requires
            self.wf(),
        ensures
            r as nat == be_val(self@.subrange(0, 1)),
    {
        read_u8(&self.bytes, 0)
    }

    /// Set the byte value in the key, touching no other byte.
    pub fn set_byte(&mut self, value: u8)
        requires
            old(self).wf(),
        ensures
            final(self).wf(),
            final(self)@ == spliced(old(self)@, 0, be_seq(value as nat, 1)),
    {
        proof {
            crate::bytes::lemma_be_seq_len(value as nat, 1);
        }
        write_u8(&mut self.bytes, 0, value)
    }

    /// Get the word value from the key.
    pub fn word(&self) -> (r: u16)
        requires
            self.wf(),
        ensures
            r as nat == be_val(self@.subrange(1, 3)),
    {
        read_u16(&self.bytes, 1)
    }

    /// Set the word value in the key, touching no other byte.
    pub fn set_word(&mut self, value: u16)
        requires
            old(self).wf(),
        ensures
            final(self).wf(),
            final(self)@ == spliced(old(self)@, 1, be_seq(value as nat, 2)),
    {
        proof {
            crate::bytes::lemma_be_seq_len(value as nat, 2);
        }
        write_u16(&mut self.bytes, 1, value)
    }

    /// Get the long value from the key.
    pub fn long(&self) -> (r: u32)
        requires
            self.wf(),
        ensures
            r as nat == be_val(self@.subrange(3, 7)),
    {
        read_u32(&self.bytes, 3)
    }

    /// Set the long value in the key, touching no other byte.
    pub fn set_long(&mut self, value: u32)
        requires
            old(self).wf(),
        ensures
            final(self).wf(),
            final(self)@ == spliced(old(self)@, 3, be_seq(value as nat, 4)),
    {
        proof {
            crate::bytes::lemma_be_seq_len(value as nat, 4);
        }
        write_u32(&mut self.bytes, 3, value)
    }

    /// Get the quad value from the key.
    pub fn quad(&self) -> (r: u64)
        requires
            self.wf(),
        ensures
            r as nat == be_val(self@.subrange(7, 15)),
    {
        read_u64(&self.bytes, 7)
    }

    /// Set the quad value in the key, touching no other byte.
    pub fn set_quad(&mut self, value: u64)
        requires
            old(self).wf(),
        ensures
            final(self).wf(),
            final(self)@ == spliced(old(self)@, 7, be_seq(value as nat, 8)),
    {
        proof {
            crate::bytes::lemma_be_seq_len(value as nat, 8);
        }
        write_u64(&mut self.bytes, 7, value)
    }

    /// Get the octo value from the key.
    pub fn octo(&self) -> (r: u128)
        requires
            self.wf(),
        ensures
            r as nat == be_val(self@.subrange(15, 31)),
    {
        read_u128(&self.bytes, 15)
    }

    /// Set the octo value in the key, touching no other byte.
    pub fn set_octo(&mut self, value: u128)
        requires
            old(self).wf(),
        ensures
            final(self).wf(),
            final(self)@ == spliced(old(self)@, 15, be_seq(value as nat, 16)),
    {
        proof {
            crate::bytes::lemma_be_seq_len(value as nat, 16);
        }
        write_u128(&mut self.bytes, 15, value)
    }

    /// Borrow the array bytes of the key.
    pub fn array(&self) -> (r: &[u8])
        requires
            self.wf(),
        ensures
            r@ == self@.subrange(31, 36),
    {
        vstd::slice::slice_subrange(self.bytes.as_slice(), 31, 36)
    }

    /// Set the array bytes in the key, touching no other byte.
    pub fn set_array(&mut self, value: &[u8])
        requires
            old(self).wf(),
            value@.len() == 5,
        ensures
            final(self).wf(),
            final(self)@ == spliced(old(self)@, 31, value@),
    {
        write_bytes(&mut self.bytes, 31, value)
    }

    /// Ingest any byte slice: short input is zero-padded, long input
    /// truncated.
    pub fn from_slice(raw: &[u8]) -> (r: Self)
        ensures
            r.wf(),
            r@ == padded(raw@, 36),
    {
        Self { bytes: pad_bytes(raw, 36) }
    }

    /// The full key buffer, borrowed.
    pub fn as_bytes(&self) -> (r: &[u8])
        ensures
            r@ == self@,
    {
        self.bytes.as_slice()
    }

    /// The full key buffer, owned.
    pub fn to_vec(&self) -> (r: Vec<u8>)
        ensures
            r@ == self@,
    {
        vstd::slice::slice_to_vec(self.bytes.as_slice())
    }

    /// The smallest encodable key: the all-zero buffer.
    pub fn min_key() -> (r: Self)
        ensures
            r.wf(),
            r@ == Seq::new(36, |i: int| 0u8),
    {
        let r = Self { bytes: vec![0u8; 36] };
        proof {
            assert(r@ =~= Seq::new(36, |i: int| 0u8));
        }
        r
    }

    /// The largest encodable key: the all-`0xFF` buffer.
    pub fn max_key() -> (r: Self)
        ensures
            r.wf(),
            r@ == Seq::new(36, |i: int| 0xFFu8),
    {
        let r = Self { bytes: vec![0xFFu8; 36] };
        proof {
            assert(r@ =~= Seq::new(36, |i: int| 0xFFu8));
        }
        r
    }

    /// The raw key bytes in this key type's diagnostic format.
    pub fn raw_debug(&self) -> (r: String)
        ensures
            r@ == list_render(RawDebugFormat::PrettyLowerHex, self@),
    {
        render_list(RawDebugFormat::PrettyLowerHex, self.bytes.as_slice())
    }
}

impl Default for PrettyLowerHexDebugKey {
    /// Every field at its configured default.
    fn default() -> (r: PrettyLowerHexDebugKey)
        ensures
            r.wf(),
            r@ == debug_layout(0u8, 0u16, 0u32, 0x123456789ABCDEF0u64, 0u128, Seq::new(5, |i: int| 0xFFu8)),
    {
        PrettyLowerHexDebugKey { bytes: debug_build(0u8, 0u16, 0u32, 0x123456789ABCDEF0u64, 0u128, [0xFFu8; 5].as_slice()) }
    }
}

/// Argument structure used to create [`PrettyLowerHexDebugKey`] values, with the
/// configured per-field defaults.
#[derive(Copy, Clone, Debug, PartialEq, Eq)]
pub struct PrettyLowerHexDebugKeyArgs {
    pub byte: u8,
    pub word: u16,
    pub long: u32,
    pub quad: u64,
    pub octo: u128,
    pub array: [u8; 5],
}

impl Default for PrettyLowerHexDebugKeyArgs {
    /// Every argument at its field's configured default.
    fn default() -> (r: PrettyLowerHexDebugKeyArgs)
        ensures
            r.byte == 0u8,
            r.word == 0u16,
            r.long == 0u32,
            r.quad == 0x123456789ABCDEF0u64,
            r.octo == 0u128,
            r.array@ == Seq::new(5, |i: int| 0xFFu8),
    {
        let r = PrettyLowerHexDebugKeyArgs {
            byte: 0u8,
            word: 0u16,
            long: 0u32,
            quad: 0x123456789ABCDEF0u64,
            octo: 0u128,
            array: [0xFFu8; 5],
        };
        proof {
            assert(r.array@ =~= Seq::new(5, |i: int| 0xFFu8));
        }
        r
    }
}

/// A key whose raw bytes print as `0x`-prefixed uppercase pairs.
#[derive(Clone, Debug, PartialEq, Eq, Hash)]
pub struct PrettyUpperHexDebugKey {
    bytes: Vec<u8>,
}

impl View for PrettyUpperHexDebugKey {
    type V = Seq<u8>;

    closed spec fn view(&self) -> Seq<u8> {
        self.bytes@
    }
}

impl PrettyUpperHexDebugKey {
    /// The size in bytes of the key data.
    pub const KEY_LENGTH: usize = 36;

    /// A buffer of exactly the key's width.
    pub open spec fn wf(self) -> bool {
        self@.len() == 36
    }

    /// Pack one value per field into a fresh key.
    pub fn new(byte: u8, word: u16, long: u32, quad: u64, octo: u128, array: [u8; 5]) -> (r: Self)
        ensures
            r.wf(),
            r@ == debug_layout(byte, word, long, quad, octo, array@),
    {
        Self { bytes: debug_build(byte, word, long, quad, octo, array.as_slice()) }
    }

    /// Build a key from an argument structure, typically one where
    /// omitted fields were left at their defaults.
    pub fn from_args(args: PrettyUpperHexDebugKeyArgs) -> (r: Self)
        ensures
            r.wf(),
            r@ == debug_layout(args.byte, args.word, args.long, args.quad, args.octo, args.array@),
    {
        Self { bytes: debug_build(args.byte, args.word, args.long, args.quad, args.octo, args.array.as_slice()) }
    }

    /// Get the byte value from the key.
    pub fn byte(&self) -> (r: u8)
        requires
            self.wf(),
        ensures
            r as nat == be_val(self@.subrange(0, 1)),
    {
        read_u8(&self.bytes, 0)
    }

    /// Set the byte value in the key, touching no other byte.
    pub fn set_byte(&mut self, value: u8)
        requires
            old(self).wf(),
        ensures
            final(self).wf(),
            final(self)@ == spliced(old(self)@, 0, be_seq(value as nat, 1)),
    {
        proof {
            crate::bytes::lemma_be_seq_len(value as nat, 1);
        }
        write_u8(&mut self.bytes, 0, value)
    }

    /// Get the word value from the key.
    pub fn word(&self) -> (r: u16)
        requires
            self.wf(),
        ensures
            r as nat == be_val(self@.subrange(1, 3)),
    {
        read_u16(&self.bytes, 1)
    }

    /// Set the word value in the key, touching no other byte.
    pub fn set_word(&mut self, value: u16)
        requires
            old(self).wf(),
        ensures
            final(self).wf(),
            final(self)@ == spliced(old(self)@, 1, be_seq(value as nat, 2)),
    {
        proof {
            crate::bytes::lemma_be_seq_len(value as nat, 2);
        }
        write_u16(&mut self.bytes, 1, value)
    }

    /// Get the long value from the key.
    pub fn long(&self) -> (r: u32)
        requires
            self.wf(),
        ensures
            r as nat == be_val(self@.subrange(3, 7)),
    {
        read_u32(&self.bytes, 3)
    }

    /// Set the long value in the key, touching no other byte.
    pub fn set_long(&mut self, value: u32)
        requires
            old(self).wf(),
        ensures
            final(self).wf(),
            final(self)@ == spliced(old(self)@, 3, be_seq(value as nat, 4)),
    {
        proof {
            crate::bytes::lemma_be_seq_len(value as nat, 4);
        }
        write_u32(&mut self.bytes, 3, value)
    }

    /// Get the quad value from the key.
    pub fn quad(&self) -> (r: u64)
        requires
            self.wf(),
        ensures
            r as nat == be_val(self@.subrange(7, 15)),
    {
        read_u64(&self.bytes, 7)
    }

    /// Set the quad value in the key, touching no other byte.
    pub fn set_quad(&mut self, value: u64)
        requires
            old(self).wf(),
        ensures
            final(self).wf(),
            final(self)@ == spliced(old(self)@, 7, be_seq(value as nat, 8)),
    {
        proof {
            crate::bytes::lemma_be_seq_len(value as nat, 8);
        }
        write_u64(&mut self.bytes, 7, value)
    }

    /// Get the octo value from the key.
    pub fn octo(&self) -> (r: u128)
        requires
            self.wf(),
        ensures
            r as nat == be_val(self@.subrange(15, 31)),
    {
        read_u128(&self.bytes, 15)
    }

    /// Set the octo value in the key, touching no other byte.
    pub fn set_octo(&mut self, value: u128)
        requires
            old(self).wf(),
        ensures
            final(self).wf(),
            final(self)@ == spliced(old(self)@, 15, be_seq(value as nat, 16)),
    {
        proof {
            crate::bytes::lemma_be_seq_len(value as nat, 16);
        }
        write_u128(&mut self.bytes, 15, value)
    }

    /// Borrow the array bytes of the key.
    pub fn array(&self) -> (r: &[u8])
        requires
            self.wf(),
        ensures
            r@ == self@.subrange(31, 36),
    {
        vstd::slice::slice_subrange(self.bytes.as_slice(), 31, 36)
    }

    /// Set the array bytes in the key, touching no other byte.
    pub fn set_array(&mut self, value: &[u8])
        requires
            old(self).wf(),
            value@.len() == 5,
        ensures
            final(self).wf(),
            final(self)@ == spliced(old(self)@, 31, value@),
    {
        write_bytes(&mut self.bytes, 31, value)
    }

    /// Ingest any byte slice: short input is zero-padded, long input
    /// truncated.
    pub fn from_slice(raw: &[u8]) -> (r: Self)
        ensures
            r.wf(),
            r@ == padded(raw@, 36),
    {
        Self { bytes: pad_bytes(raw, 36) }
    }

    /// The full key buffer, borrowed.
    pub fn as_bytes(&self) -> (r: &[u8])
        ensures
            r@ == self@,
    {
        self.bytes.as_slice()
    }

    /// The full key buffer, owned.
    pub fn to_vec(&self) -> (r: Vec<u8>)
        ensures
            r@ == self@,
    {
        vstd::slice::slice_to_vec(self.bytes.as_slice())
    }

    /// The smallest encodable key: the all-zero buffer.
    pub fn min_key() -> (r: Self)
        ensures
            r.wf(),
            r@ == Seq::new(36, |i: int| 0u8),
    {
        let r = Self { bytes: vec![0u8; 36] };
        proof {
            assert(r@ =~= Seq::new(36, |i: int| 0u8));
        }
        r
    }

    /// The largest encodable key: the all-`0xFF` buffer.
    pub fn max_key() -> (r: Self)
        ensures
            r.wf(),
            r@ == Seq::new(36, |i: int| 0xFFu8),
    {
        let r = Self { bytes: vec![0xFFu8; 36] };
        proof {
            assert(r@ =~= Seq::new(36, |i: int| 0xFFu8));
        }
        r
    }

    /// The raw key bytes in this key type's diagnostic format.
    pub fn raw_debug(&self) -> (r: String)
        ensures
            r@ == list_render(RawDebugFormat::PrettyUpperHex, self@),
    {
        render_list(RawDebugFormat::PrettyUpperHex, self.bytes.as_slice())
    }
}

impl Default for PrettyUpperHexDebugKey {
    /// Every field at its configured default.
    fn default() -> (r: PrettyUpperHexDebugKey)
        ensures
            r.wf(),
            r@ == debug_layout(0u8, 0u16, 0u32, 0x123456789ABCDEF0u64, 0u128, Seq::new(5, |i: int| 0xFFu8)),
    {
        PrettyUpperHexDebugKey { bytes: debug_build(0u8, 0u16, 0u32, 0x123456789ABCDEF0u64, 0u128, [0xFFu8; 5].as_slice()) }
    }
}

/// Argument structure used to create [`PrettyUpperHexDebugKey`] values, with the
/// configured per-field defaults.
#[derive(Copy, Clone, Debug, PartialEq, Eq)]
pub struct PrettyUpperHexDebugKeyArgs {
    pub byte: u8,
    pub word: u16,
    pub long: u32,
    pub quad: u64,
    pub octo: u128,
    pub array: [u8; 5],
}

impl Default for PrettyUpperHexDebugKeyArgs {
    /// Every argument at its field's configured default.
    fn default() -> (r: PrettyUpperHexDebugKeyArgs)
        ensures
            r.byte == 0u8,
            r.word == 0u16,
            r.long == 0u32,
            r.quad == 0x123456789ABCDEF0u64,
            r.octo == 0u128,
            r.array@ == Seq::new(5, |i: int| 0xFFu8),
    {
        let r = PrettyUpperHexDebugKeyArgs {
            byte: 0u8,
            word: 0u16,
            long: 0u32,
            quad: 0x123456789ABCDEF0u64,
            octo: 0u128,
            array: [0xFFu8; 5],
        };
        proof {
            assert(r.array@ =~= Seq::new(5, |i: int| 0xFFu8));
        }
        r
    }
}

} // verus!
