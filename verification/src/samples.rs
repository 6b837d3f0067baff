//! Sample key types of the standard shapes, written against the codec.
//!
//! Each type packs a fixed ordered field list into its buffer with the
//! per-width transforms, and exposes the generated-style surface: a
//! constructor per field list, construction from an argument structure
//! with per-field defaults, per-field getters and setters, raw-byte
//! ingestion and extraction, whole-key bounds, and a diagnostic
//! rendering of the raw bytes.

pub mod debug;

use vstd::prelude::*;
use crate::bytes::{be_seq, be_val, be_encode, lemma_be_seq_len, lemma_pow256_values};
use crate::kind::FieldSize;
use crate::value::FieldValue;
use crate::key::{padded, spliced};
use crate::codec::{
    append_bytes, pad_bytes, write_bytes, read_u8, read_u16, read_u32, read_u64, read_u128,
    read_i8, read_i16, read_i32, read_i64, write_u8, write_u16, write_u32, write_u64, write_u128,
    write_i8, write_i16, write_i32, write_i64,
};
use crate::render::{compact_render, render_compact, sum_sizes};

verus! {


/// The packed byte layout of this field list.
pub open spec fn standard_layout(id: u64, word: u16, byte: u8, long: u32, end: Seq<u8>) -> Seq<u8> {
    be_seq(id as nat, 8) + be_seq(word as nat, 2) + be_seq(byte as nat, 1) + be_seq(long as nat, 4) + end
}

fn standard_build(id: u64, word: u16, byte: u8, long: u32, end: &[u8]) -> (r: Vec<u8>)
    requires
        end@.len() == 3,
    ensures
        r@ == standard_layout(id, word, byte, long, end@),
        r@.len() == 18,
{
    proof {
        lemma_pow256_values();
        lemma_be_seq_len(id as nat, 8);
        lemma_be_seq_len(word as nat, 2);
        lemma_be_seq_len(byte as nat, 1);
        lemma_be_seq_len(long as nat, 4);
    }
    let mut b = be_encode(id as u128, 8);
    let t = be_encode(word as u128, 2);
    append_bytes(&mut b, t.as_slice());
    let t = be_encode(byte as u128, 1);
    append_bytes(&mut b, t.as_slice());
    let t = be_encode(long as u128, 4);
    append_bytes(&mut b, t.as_slice());
    append_bytes(&mut b, end);
    proof {
        assert(b@ =~= standard_layout(id, word, byte, long, end@));
    }
    b
}

/// The field widths of this layout, in order.
pub open spec fn standard_sizes() -> Seq<usize> {
    seq![8usize, 2usize, 1usize, 4usize, 3usize]
}

/// The field widths, for executable callers.
pub fn standard_sizes_exec() -> (r: Vec<usize>)
    ensures
        r@ == standard_sizes(),
{
    let mut v: Vec<usize> = Vec::new();
    v.push(8);
    v.push(2);
    v.push(1);
    v.push(4);
    v.push(3);
    proof {
        assert(v@ =~= standard_sizes());
    }
    v
}

/// The widths of this layout sum to its total size.
pub proof fn lemma_standard_sizes_sum()
    ensures
        sum_sizes(standard_sizes()) == 18,
{
    reveal_with_fuel(sum_sizes, 7);
    assert(seq![8usize, 2usize, 1usize, 4usize, 3usize].drop_last() =~= seq![8usize, 2usize, 1usize, 4usize]);
    assert(seq![8usize, 2usize, 1usize, 4usize].drop_last() =~= seq![8usize, 2usize, 1usize]);
    assert(seq![8usize, 2usize, 1usize].drop_last() =~= seq![8usize, 2usize]);
    assert(seq![8usize, 2usize].drop_last() =~= seq![8usize]);
    assert(seq![8usize].drop_last() =~= Seq::<usize>::empty());
    assert(sum_sizes(Seq::<usize>::empty()) == 0);
}

/// The packed byte layout of this field list.
pub open spec fn signed_layout(id: i64, word: i16, byte: i8, long: i32, end: Seq<u8>) -> Seq<u8> {
    FieldSize::Signed64.encode_int(id as int) + FieldSize::Signed16.encode_int(word as int) + FieldSize::Signed8.encode_int(byte as int) + FieldSize::Signed32.encode_int(long as int) + end
}

fn signed_build(id: i64, word: i16, byte: i8, long: i32, end: &[u8]) -> (r: Vec<u8>)
    requires
        end@.len() == 3,
    ensures
        r@ == signed_layout(id, word, byte, long, end@),
        r@.len() == 18,
{
    let fv = FieldValue::from_i64(id);
    let mut b = vstd::slice::slice_to_vec(fv.raw_bytes().as_slice());
    let fv = FieldValue::from_i16(word);
    append_bytes(&mut b, fv.raw_bytes().as_slice());
    let fv = FieldValue::from_i8(byte);
    append_bytes(&mut b, fv.raw_bytes().as_slice());
    let fv = FieldValue::from_i32(long);
    append_bytes(&mut b, fv.raw_bytes().as_slice());
    append_bytes(&mut b, end);
    proof {
        assert(b@ =~= signed_layout(id, word, byte, long, end@));
    }
    b
}

/// The packed byte layout of this field list.
pub open spec fn big_layout(big0: u128, big1: u128, big2: u128, big3: u128, big4: u128, big5: u128, big6: u128, big7: u128, big8: u128, big9: u128, array: Seq<u8>) -> Seq<u8> {
    be_seq(big0 as nat, 16) + be_seq(big1 as nat, 16) + be_seq(big2 as nat, 16) + be_seq(big3 as nat, 16) + be_seq(big4 as nat, 16) + be_seq(big5 as nat, 16) + be_seq(big6 as nat, 16) + be_seq(big7 as nat, 16) + be_seq(big8 as nat, 16) + be_seq(big9 as nat, 16) + array
}

fn big_build(big0: u128, big1: u128, big2: u128, big3: u128, big4: u128, big5: u128, big6: u128, big7: u128, big8: u128, big9: u128, array: &[u8]) -> (r: Vec<u8>)
    requires
        array@.len() == 160,
    ensures
        r@ == big_layout(big0, big1, big2, big3, big4, big5, big6, big7, big8, big9, array@),
        r@.len() == 320,
{
    proof {
        lemma_pow256_values();
        lemma_be_seq_len(big0 as nat, 16);
        lemma_be_seq_len(big1 as nat, 16);
        lemma_be_seq_len(big2 as nat, 16);
        lemma_be_seq_len(big3 as nat, 16);
        lemma_be_seq_len(big4 as nat, 16);
        lemma_be_seq_len(big5 as nat, 16);
        lemma_be_seq_len(big6 as nat, 16);
        lemma_be_seq_len(big7 as nat, 16);
        lemma_be_seq_len(big8 as nat, 16);
        lemma_be_seq_len(big9 as nat, 16);
    }
    let mut b = be_encode(big0, 16);
    let t = be_encode(big1, 16);
    append_bytes(&mut b, t.as_slice());
    let t = be_encode(big2, 16);
    append_bytes(&mut b, t.as_slice());
    let t = be_encode(big3, 16);
    append_bytes(&mut b, t.as_slice());
    let t = be_encode(big4, 16);
    append_bytes(&mut b, t.as_slice());
    let t = be_encode(big5, 16);
    append_bytes(&mut b, t.as_slice());
    let t = be_encode(big6, 16);
    append_bytes(&mut b, t.as_slice());
    let t = be_encode(big7, 16);
    append_bytes(&mut b, t.as_slice());
    let t = be_encode(big8, 16);
    append_bytes(&mut b, t.as_slice());
    let t = be_encode(big9, 16);
    append_bytes(&mut b, t.as_slice());
    append_bytes(&mut b, array);
    proof {
        assert(b@ =~= big_layout(big0, big1, big2, big3, big4, big5, big6, big7, big8, big9, array@));
    }
    b
}

/// The field widths of this layout, in order.
pub open spec fn big_sizes() -> Seq<usize> {
    seq![16usize, 16usize, 16usize, 16usize, 16usize, 16usize, 16usize, 16usize, 16usize, 16usize, 160usize]
}

/// The field widths, for executable callers.
pub fn big_sizes_exec() -> (r: Vec<usize>)
    ensures
        r@ == big_sizes(),
{
    let mut v: Vec<usize> = Vec::new();
    v.push(16);
    v.push(16);
    v.push(16);
    v.push(16);
    v.push(16);
    v.push(16);
    v.push(16);
    v.push(16);
    v.push(16);
    v.push(16);
    v.push(160);
    proof {
        assert(v@ =~= big_sizes());
    }
    v
}

/// The widths of this layout sum to its total size.
pub proof fn lemma_big_sizes_sum()
    ensures
        sum_sizes(big_sizes()) == 320,
{
    reveal_with_fuel(sum_sizes, 13);
    assert(seq![16usize, 16usize, 16usize, 16usize, 16usize, 16usize, 16usize, 16usize, 16usize, 16usize, 160usize].drop_last() =~= seq![16usize, 16usize, 16usize, 16usize, 16usize, 16usize, 16usize, 16usize, 16usize, 16usize]);
    assert(seq![16usize, 16usize, 16usize, 16usize, 16usize, 16usize, 16usize, 16usize, 16usize, 16usize].drop_last() =~= seq![16usize, 16usize, 16usize, 16usize, 16usize, 16usize, 16usize, 16usize, 16usize]);
    assert(seq![16usize, 16usize, 16usize, 16usize, 16usize, 16usize, 16usize, 16usize, 16usize].drop_last() =~= seq![16usize, 16usize, 16usize, 16usize, 16usize, 16usize, 16usize, 16usize]);
    assert(seq![16usize, 16usize, 16usize, 16usize, 16usize, 16usize, 16usize, 16usize].drop_last() =~= seq![16usize, 16usize, 16usize, 16usize, 16usize, 16usize, 16usize]);
    assert(seq![16usize, 16usize, 16usize, 16usize, 16usize, 16usize, 16usize].drop_last() =~= seq![16usize, 16usize, 16usize, 16usize, 16usize, 16usize]);
    assert(seq![16usize, 16usize, 16usize, 16usize, 16usize, 16usize].drop_last() =~= seq![16usize, 16usize, 16usize, 16usize, 16usize]);
    assert(seq![16usize, 16usize, 16usize, 16usize, 16usize].drop_last() =~= seq![16usize, 16usize, 16usize, 16usize]);
    assert(seq![16usize, 16usize, 16usize, 16usize].drop_last() =~= seq![16usize, 16usize, 16usize]);
    assert(seq![16usize, 16usize, 16usize].drop_last() =~= seq![16usize, 16usize]);
    assert(seq![16usize, 16usize].drop_last() =~= seq![16usize]);
    assert(seq![16usize].drop_last() =~= Seq::<usize>::empty());
    assert(sum_sizes(Seq::<usize>::empty()) == 0);
}

/// A sample key with overridden defaults on three of its fields.
#[derive(Clone, Debug, PartialEq, Eq, Hash)]
pub struct SampleKey {
    bytes: Vec<u8>,
}

impl View for SampleKey {
    type V = Seq<u8>;

    closed spec fn view(&self) -> Seq<u8> {
        self.bytes@
    }
}

impl SampleKey {
    /// The size in bytes of the key data.
    pub const KEY_LENGTH: usize = 18;

    /// A buffer of exactly the key's width.
    pub open spec fn wf(self) -> bool {
        self@.len() == 18
    }

    /// Pack one value per field into a fresh key.
    pub fn new(id: u64, word: u16, byte: u8, long: u32, end: [u8; 3]) -> (r: Self)
        ensures
            r.wf(),
            r@ == standard_layout(id, word, byte, long, end@),
    {
        Self { bytes: standard_build(id, word, byte, long, end.as_slice()) }
    }

    /// Build a key from an argument structure, typically one where
    /// omitted fields were left at their defaults.
    pub fn from_args(args: SampleKeyArgs) -> (r: Self)
        ensures
            r.wf(),
            r@ == standard_layout(args.id, args.word, args.byte, args.long, args.end@),
    {
        Self { bytes: standard_build(args.id, args.word, args.byte, args.long, args.end.as_slice()) }
    }

    /// Get the id value from the key.
    pub fn id(&self) -> (r: u64)
        requires
            self.wf(),
        ensures
            r as nat == be_val(self@.subrange(0, 8)),
    {
        read_u64(&self.bytes, 0)
    }

    /// Set the id value in the key, touching no other byte.
    pub fn set_id(&mut self, value: u64)
        requires
            old(self).wf(),
        ensures
            final(self).wf(),
            final(self)@ == spliced(old(self)@, 0, be_seq(value as nat, 8)),
    {
        proof {
            crate::bytes::lemma_be_seq_len(value as nat, 8);
        }
        write_u64(&mut self.bytes, 0, value)
    }

    /// Get the word value from the key.
    pub fn word(&self) -> (r: u16)
        requires
            self.wf(),
        ensures
            r as nat == be_val(self@.subrange(8, 10)),
    {
        read_u16(&self.bytes, 8)
    }

    /// Set the word value in the key, touching no other byte.
    pub fn set_word(&mut self, value: u16)
        requires
            old(self).wf(),
        ensures
            final(self).wf(),
            final(self)@ == spliced(old(self)@, 8, be_seq(value as nat, 2)),
    {
        proof {
            crate::bytes::lemma_be_seq_len(value as nat, 2);
        }
        write_u16(&mut self.bytes, 8, value)
    }

    /// Get the byte value from the key.
    pub fn byte(&self) -> (r: u8)
        requires
            self.wf(),
        ensures
            r as nat == be_val(self@.subrange(10, 11)),
    {
        read_u8(&self.bytes, 10)
    }

    /// Set the byte value in the key, touching no other byte.
    pub fn set_byte(&mut self, value: u8)
        requires
            old(self).wf(),
        ensures
            final(self).wf(),
            final(self)@ == spliced(old(self)@, 10, be_seq(value as nat, 1)),
    {
        proof {
            crate::bytes::lemma_be_seq_len(value as nat, 1);
        }
        write_u8(&mut self.bytes, 10, value)
    }

    /// Get the long value from the key.
    pub fn long(&self) -> (r: u32)
        requires
            self.wf(),
        ensures
            r as nat == be_val(self@.subrange(11, 15)),
    {
        read_u32(&self.bytes, 11)
    }

    /// Set the long value in the key, touching no other byte.
    pub fn set_long(&mut self, value: u32)
        requires
            old(self).wf(),
        ensures
            final(self).wf(),
            final(self)@ == spliced(old(self)@, 11, be_seq(value as nat, 4)),
    {
        proof {
            crate::bytes::lemma_be_seq_len(value as nat, 4);
        }
        write_u32(&mut self.bytes, 11, value)
    }

    /// Borrow the end bytes of the key.
    pub fn end(&self) -> (r: &[u8])
        requires
            self.wf(),
        ensures
            r@ == self@.subrange(15, 18),
    {
        vstd::slice::slice_subrange(self.bytes.as_slice(), 15, 18)
    }

    /// Set the end bytes in the key, touching no other byte.
    pub fn set_end(&mut self, value: &[u8])
        requires
            old(self).wf(),
            value@.len() == 3,
        ensures
            final(self).wf(),
            final(self)@ == spliced(old(self)@, 15, value@),
    {
        write_bytes(&mut self.bytes, 15, value)
    }

    /// Ingest any byte slice: short input is zero-padded, long input
    /// truncated.
    pub fn from_slice(raw: &[u8]) -> (r: Self)
        ensures
            r.wf(),
            r@ == padded(raw@, 18),
    {
        Self { bytes: pad_bytes(raw, 18) }
    }

    /// The full key buffer, borrowed.
    pub fn as_bytes(&self) -> (r: &[u8])
        ensures
            r@ == self@,
    {
        self.bytes.as_slice()
    }

    /// The full key buffer, owned.
    pub fn to_vec(&self) -> (r: Vec<u8>)
        ensures
            r@ == self@,
    {
        vstd::slice::slice_to_vec(self.bytes.as_slice())
    }

    /// The smallest encodable key: no field narrows its bounds, so
    /// this is the all-zero buffer.
    pub fn min_key() -> (r: Self)
        ensures
            r.wf(),
            r@ == Seq::new(18, |i: int| 0u8),
    {
        let r = Self { bytes: vec![0u8; 18] };
        proof {
            assert(r@ =~= Seq::new(18, |i: int| 0u8));
        }
        r
    }

    /// The largest encodable key: no field narrows its bounds, so
    /// this is the all-`0xFF` buffer.
    pub fn max_key() -> (r: Self)
        ensures
            r.wf(),
            r@ == Seq::new(18, |i: int| 0xFFu8),
    {
        let r = Self { bytes: vec![0xFFu8; 18] };
        proof {
            assert(r@ =~= Seq::new(18, |i: int| 0xFFu8));
        }
        r
    }

    /// The raw key bytes in the compact diagnostic format.
    pub fn raw_debug(&self) -> (r: String)
        requires
            self.wf(),
        ensures
            r@ == compact_render(self@, standard_sizes()),
    {
        let sizes = standard_sizes_exec();
        proof {
            lemma_standard_sizes_sum();
        }
        render_compact(self.bytes.as_slice(), &sizes)
    }
}

impl Default for SampleKey {
    /// Every field at its configured default.
    fn default() -> (r: SampleKey)
        ensures
            r.wf(),
            r@ == standard_layout(0x123456789ABCDEF0u64, 0u16, 0u8, 0x12345678u32, Seq::new(3, |i: int| 0xA5u8)),
    {
        SampleKey { bytes: standard_build(0x123456789ABCDEF0u64, 0u16, 0u8, 0x12345678u32, [0xA5u8; 3].as_slice()) }
    }
}

/// Argument structure used to create [`SampleKey`] values, with the
/// configured per-field defaults.
#[derive(Copy, Clone, Debug, PartialEq, Eq)]
pub struct SampleKeyArgs {
    pub id: u64,
    pub word: u16,
    pub byte: u8,
    pub long: u32,
    pub end: [u8; 3],
}

impl Default for SampleKeyArgs {
    /// Every argument at its field's configured default.
    fn default() -> (r: SampleKeyArgs)
        ensures
            r.id == 0x123456789ABCDEF0u64,
            r.word == 0u16,
            r.byte == 0u8,
            r.long == 0x12345678u32,
            r.end@ == Seq::new(3, |i: int| 0xA5u8),
    {
        let r = SampleKeyArgs {
            id: 0x123456789ABCDEF0u64,
            word: 0u16,
            byte: 0u8,
            long: 0x12345678u32,
            end: [0xA5u8; 3],
        };
        proof {
            assert(r.end@ =~= Seq::new(3, |i: int| 0xA5u8));
        }
        r
    }
}

/// A sample key built only from its argument structure.
#[derive(Clone, Debug, PartialEq, Eq, Hash)]
pub struct NoNewKey {
    bytes: Vec<u8>,
}

impl View for NoNewKey {
    type V = Seq<u8>;

    closed spec fn view(&self) -> Seq<u8> {
        self.bytes@
    }
}

impl NoNewKey {
    /// The size in bytes of the key data.
    pub const KEY_LENGTH: usize = 18;

    /// A buffer of exactly the key's width.
    pub open spec fn wf(self) -> bool {
        self@.len() == 18
    }

    /// Build a key from an argument structure, typically one where
    /// omitted fields were left at their defaults.
    pub fn from_args(args: NoNewKeyArgs) -> (r: Self)
        ensures
            r.wf(),
            r@ == standard_layout(args.id, args.word, args.byte, args.long, args.end@),
    {
        Self { bytes: standard_build(args.id, args.word, args.byte, args.long, args.end.as_slice()) }
    }

    /// Get the id value from the key.
    pub fn id(&self) -> (r: u64)
        requires
            self.wf(),
        ensures
            r as nat == be_val(self@.subrange(0, 8)),
    {
        read_u64(&self.bytes, 0)
    }

    /// Set the id value in the key, touching no other byte.
    pub fn set_id(&mut self, value: u64)
        requires
            old(self).wf(),
        ensures
            final(self).wf(),
            final(self)@ == spliced(old(self)@, 0, be_seq(value as nat, 8)),
    {
        proof {
            crate::bytes::lemma_be_seq_len(value as nat, 8);
        }
        write_u64(&mut self.bytes, 0, value)
    }

    /// Get the word value from the key.
    pub fn word(&self) -> (r: u16)
        requires
            self.wf(),
        ensures
            r as nat == be_val(self@.subrange(8, 10)),
    {
        read_u16(&self.bytes, 8)
    }

    /// Set the word value in the key, touching no other byte.
    pub fn set_word(&mut self, value: u16)
        requires
            old(self).wf(),
        ensures
            final(self).wf(),
            final(self)@ == spliced(old(self)@, 8, be_seq(value as nat, 2)),
    {
        proof {
            crate::bytes::lemma_be_seq_len(value as nat, 2);
        }
        write_u16(&mut self.bytes, 8, value)
    }

    /// Get the byte value from the key.
    pub fn byte(&self) -> (r: u8)
        requires
            self.wf(),
        ensures
            r as nat == be_val(self@.subrange(10, 11)),
    {
        read_u8(&self.bytes, 10)
    }

    /// Set the byte value in the key, touching no other byte.
    pub fn set_byte(&mut self, value: u8)
        requires
            old(self).wf(),
        ensures
            final(self).wf(),
            final(self)@ == spliced(old(self)@, 10, be_seq(value as nat, 1)),
    {
        proof {
            crate::bytes::lemma_be_seq_len(value as nat, 1);
        }
        write_u8(&mut self.bytes, 10, value)
    }

    /// Get the long value from the key.
    pub fn long(&self) -> (r: u32)
        requires
            self.wf(),
        ensures
            r as nat == be_val(self@.subrange(11, 15)),
    {
        read_u32(&self.bytes, 11)
    }

    /// Set the long value in the key, touching no other byte.
    pub fn set_long(&mut self, value: u32)
        requires
            old(self).wf(),
        ensures
            final(self).wf(),
            final(self)@ == spliced(old(self)@, 11, be_seq(value as nat, 4)),
    {
        proof {
            crate::bytes::lemma_be_seq_len(value as nat, 4);
        }
        write_u32(&mut self.bytes, 11, value)
    }

    /// Borrow the end bytes of the key.
    pub fn end(&self) -> (r: &[u8])
        requires
            self.wf(),
        ensures
            r@ == self@.subrange(15, 18),
    {
        vstd::slice::slice_subrange(self.bytes.as_slice(), 15, 18)
    }

    /// Set the end bytes in the key, touching no other byte.
    pub fn set_end(&mut self, value: &[u8])
        requires
            old(self).wf(),
            value@.len() == 3,
        ensures
            final(self).wf(),
            final(self)@ == spliced(old(self)@, 15, value@),
    {
        write_bytes(&mut self.bytes, 15, value)
    }

    /// Ingest any byte slice: short input is zero-padded, long input
    /// truncated.
    pub fn from_slice(raw: &[u8]) -> (r: Self)
        ensures
            r.wf(),
            r@ == padded(raw@, 18),
    {
        Self { bytes: pad_bytes(raw, 18) }
    }

    /// The full key buffer, borrowed.
    pub fn as_bytes(&self) -> (r: &[u8])
        ensures
            r@ == self@,
    {
        self.bytes.as_slice()
    }

    /// The full key buffer, owned.
    pub fn to_vec(&self) -> (r: Vec<u8>)
        ensures
            r@ == self@,
    {
        vstd::slice::slice_to_vec(self.bytes.as_slice())
    }

    /// The smallest encodable key: no field narrows its bounds, so
    /// this is the all-zero buffer.
    pub fn min_key() -> (r: Self)
        ensures
            r.wf(),
            r@ == Seq::new(18, |i: int| 0u8),
    {
        let r = Self { bytes: vec![0u8; 18] };
        proof {
            assert(r@ =~= Seq::new(18, |i: int| 0u8));
        }
        r
    }

    /// The largest encodable key: no field narrows its bounds, so
    /// this is the all-`0xFF` buffer.
    pub fn max_key() -> (r: Self)
        ensures
            r.wf(),
            r@ == Seq::new(18, |i: int| 0xFFu8),
    {
        let r = Self { bytes: vec![0xFFu8; 18] };
        proof {
            assert(r@ =~= Seq::new(18, |i: int| 0xFFu8));
        }
        r
    }

    /// The raw key bytes in the compact diagnostic format.
    pub fn raw_debug(&self) -> (r: String)
        requires
            self.wf(),
        ensures
            r@ == compact_render(self@, standard_sizes()),
    {
        let sizes = standard_sizes_exec();
        proof {
            lemma_standard_sizes_sum();
        }
        render_compact(self.bytes.as_slice(), &sizes)
    }
}

impl Default for NoNewKey {
    /// Every field at its configured default.
    fn default() -> (r: NoNewKey)
        ensures
            r.wf(),
            r@ == standard_layout(0u64, 0u16, 0u8, 0u32, seq![0x12u8, 0x34u8, 0x56u8]),
    {
        NoNewKey { bytes: standard_build(0u64, 0u16, 0u8, 0u32, [0x12u8, 0x34u8, 0x56u8].as_slice()) }
    }
}

/// Argument structure used to create [`NoNewKey`] values, with the
/// configured per-field defaults.
#[derive(Copy, Clone, Debug, PartialEq, Eq)]
pub struct NoNewKeyArgs {
    pub id: u64,
    pub word: u16,
    pub byte: u8,
    pub long: u32,
    pub end: [u8; 3],
}

impl Default for NoNewKeyArgs {
    /// Every argument at its field's configured default.
    fn default() -> (r: NoNewKeyArgs)
        ensures
            r.id == 0u64,
            r.word == 0u16,
            r.byte == 0u8,
            r.long == 0u32,
            r.end@ == seq![0x12u8, 0x34u8, 0x56u8],
    {
        let r = NoNewKeyArgs {
            id: 0u64,
            word: 0u16,
            byte: 0u8,
            long: 0u32,
            end: [0x12u8, 0x34u8, 0x56u8],
        };
        proof {
            assert(r.end@ =~= seq![0x12u8, 0x34u8, 0x56u8]);
        }
        r
    }
}

/// A sample key whose argument structure carries a short name.
#[derive(Clone, Debug, PartialEq, Eq, Hash)]
pub struct Key {
    bytes: Vec<u8>,
}

impl View for Key {
    type V = Seq<u8>;

    closed spec fn view(&self) -> Seq<u8> {
        self.bytes@
    }
}

impl Key {
    /// The size in bytes of the key data.
    pub const KEY_LENGTH: usize = 18;

    /// A buffer of exactly the key's width.
    pub open spec fn wf(self) -> bool {
        self@.len() == 18
    }

    /// Pack one value per field into a fresh key.
    pub fn new(id: u64, word: u16, byte: u8, long: u32, end: [u8; 3]) -> (r: Self)
        ensures
            r.wf(),
            r@ == standard_layout(id, word, byte, long, end@),
    {
        Self { bytes: standard_build(id, word, byte, long, end.as_slice()) }
    }

    /// Build a key from an argument structure, typically one where
    /// omitted fields were left at their defaults.
    pub fn from_args(args: Args) -> (r: Self)
        ensures
            r.wf(),
            r@ == standard_layout(args.id, args.word, args.byte, args.long, args.end@),
    {
        Self { bytes: standard_build(args.id, args.word, args.byte, args.long, args.end.as_slice()) }
    }

    /// Get the id value from the key.
    pub fn id(&self) -> (r: u64)
        requires
            self.wf(),
        ensures
            r as nat == be_val(self@.subrange(0, 8)),
    {
        read_u64(&self.bytes, 0)
    }

    /// Set the id value in the key, touching no other byte.
    pub fn set_id(&mut self, value: u64)
        requires
            old(self).wf(),
        ensures
            final(self).wf(),
            final(self)@ == spliced(old(self)@, 0, be_seq(value as nat, 8)),
    {
        proof {
            crate::bytes::lemma_be_seq_len(value as nat, 8);
        }
        write_u64(&mut self.bytes, 0, value)
    }

    /// Get the word value from the key.
    pub fn word(&self) -> (r: u16)
        requires
            self.wf(),
        ensures
            r as nat == be_val(self@.subrange(8, 10)),
    {
        read_u16(&self.bytes, 8)
    }

    /// Set the word value in the key, touching no other byte.
    pub fn set_word(&mut self, value: u16)
        requires
            old(self).wf(),
        ensures
            final(self).wf(),
            final(self)@ == spliced(old(self)@, 8, be_seq(value as nat, 2)),
    {
        proof {
            crate::bytes::lemma_be_seq_len(value as nat, 2);
        }
        write_u16(&mut self.bytes, 8, value)
    }

    /// Get the byte value from the key.
    pub fn byte(&self) -> (r: u8)
        requires
            self.wf(),
        ensures
            r as nat == be_val(self@.subrange(10, 11)),
    {
        read_u8(&self.bytes, 10)
    }

    /// Set the byte value in the key, touching no other byte.
    pub fn set_byte(&mut self, value: u8)
        requires
            old(self).wf(),
        ensures
            final(self).wf(),
            final(self)@ == spliced(old(self)@, 10, be_seq(value as nat, 1)),
    {
        proof {
            crate::bytes::lemma_be_seq_len(value as nat, 1);
        }
        write_u8(&mut self.bytes, 10, value)
    }

    /// Get the long value from the key.
    pub fn long(&self) -> (r: u32)
        requires
            self.wf(),
        ensures
            r as nat == be_val(self@.subrange(11, 15)),
    {
        read_u32(&self.bytes, 11)
    }

    /// Set the long value in the key, touching no other byte.
    pub fn set_long(&mut self, value: u32)
        requires
            old(self).wf(),
        ensures
            final(self).wf(),
            final(self)@ == spliced(old(self)@, 11, be_seq(value as nat, 4)),
    {
        proof {
            crate::bytes::lemma_be_seq_len(value as nat, 4);
        }
        write_u32(&mut self.bytes, 11, value)
    }

    /// Borrow the end bytes of the key.
    pub fn end(&self) -> (r: &[u8])
        requires
            self.wf(),
        ensures
            r@ == self@.subrange(15, 18),
    {
        vstd::slice::slice_subrange(self.bytes.as_slice(), 15, 18)
    }

    /// Set the end bytes in the key, touching no other byte.
    pub fn set_end(&mut self, value: &[u8])
        requires
            old(self).wf(),
            value@.len() == 3,
        ensures
            final(self).wf(),
            final(self)@ == spliced(old(self)@, 15, value@),
    {
        write_bytes(&mut self.bytes, 15, value)
    }

    /// Ingest any byte slice: short input is zero-padded, long input
    /// truncated.
    pub fn from_slice(raw: &[u8]) -> (r: Self)
        ensures
            r.wf(),
            r@ == padded(raw@, 18),
    {
        Self { bytes: pad_bytes(raw, 18) }
    }

    /// The full key buffer, borrowed.
    pub fn as_bytes(&self) -> (r: &[u8])
        ensures
            r@ == self@,
    {
        self.bytes.as_slice()
    }

    /// The full key buffer, owned.
    pub fn to_vec(&self) -> (r: Vec<u8>)
        ensures
            r@ == self@,
    {
        vstd::slice::slice_to_vec(self.bytes.as_slice())
    }

    /// The smallest encodable key: no field narrows its bounds, so
    /// this is the all-zero buffer.
    pub fn min_key() -> (r: Self)
        ensures
            r.wf(),
            r@ == Seq::new(18, |i: int| 0u8),
    {
        let r = Self { bytes: vec![0u8; 18] };
        proof {
            assert(r@ =~= Seq::new(18, |i: int| 0u8));
        }
        r
    }

    /// The largest encodable key: no field narrows its bounds, so
    /// this is the all-`0xFF` buffer.
    pub fn max_key() -> (r: Self)
        ensures
            r.wf(),
            r@ == Seq::new(18, |i: int| 0xFFu8),
    {
        let r = Self { bytes: vec![0xFFu8; 18] };
        proof {
            assert(r@ =~= Seq::new(18, |i: int| 0xFFu8));
        }
        r
    }

    /// The raw key bytes in the compact diagnostic format.
    pub fn raw_debug(&self) -> (r: String)
        requires
            self.wf(),
        ensures
            r@ == compact_render(self@, standard_sizes()),
    {
        let sizes = standard_sizes_exec();
        proof {
            lemma_standard_sizes_sum();
        }
        render_compact(self.bytes.as_slice(), &sizes)
    }
}

impl Default for Key {
    /// Every field at its configured default.
    fn default() -> (r: Key)
        ensures
            r.wf(),
            r@ == standard_layout(0u64, 12453u16, 150u8, 0x18245637u32, Seq::new(3, |i: int| 0xBAu8)),
    {
        Key { bytes: standard_build(0u64, 12453u16, 150u8, 0x18245637u32, [0xBAu8; 3].as_slice()) }
    }
}

/// Argument structure used to create [`Key`] values, with the
/// configured per-field defaults.
#[derive(Copy, Clone, Debug, PartialEq, Eq)]
pub struct Args {
    pub id: u64,
    pub word: u16,
    pub byte: u8,
    pub long: u32,
    pub end: [u8; 3],
}

impl Default for Args {
    /// Every argument at its field's configured default.
    fn default() -> (r: Args)
        ensures
            r.id == 0u64,
            r.word == 12453u16,
            r.byte == 150u8,
            r.long == 0x18245637u32,
            r.end@ == Seq::new(3, |i: int| 0xBAu8),
    {
        let r = Args {
            id: 0u64,
            word: 12453u16,
            byte: 150u8,
            long: 0x18245637u32,
            end: [0xBAu8; 3],
        };
        proof {
            assert(r.end@ =~= Seq::new(3, |i: int| 0xBAu8));
        }
        r
    }
}

/// A large key: ten 16-byte fields and a 160-byte array.
#[derive(Clone, Debug, PartialEq, Eq, Hash)]
pub struct BigKey {
    bytes: Vec<u8>,
}

impl View for BigKey {
    type V = Seq<u8>;

    closed spec fn view(&self) -> Seq<u8> {
        self.bytes@
    }
}

impl BigKey {
    /// The size in bytes of the key data.
    pub const KEY_LENGTH: usize = 320;

    /// A buffer of exactly the key's width.
    pub open spec fn wf(self) -> bool {
        self@.len() == 320
    }

    /// Pack one value per field into a fresh key.
    pub fn new(big0: u128, big1: u128, big2: u128, big3: u128, big4: u128, big5: u128, big6: u128, big7: u128, big8: u128, big9: u128, array: [u8; 160]) -> (r: Self)
        ensures
            r.wf(),
            r@ == big_layout(big0, big1, big2, big3, big4, big5, big6, big7, big8, big9, array@),
    {
        Self { bytes: big_build(big0, big1, big2, big3, big4, big5, big6, big7, big8, big9, array.as_slice()) }
    }

    /// Build a key from an argument structure, typically one where
    /// omitted fields were left at their defaults.
    pub fn from_args(args: BigKeyArgs) -> (r: Self)
        ensures
            r.wf(),
            r@ == big_layout(args.big0, args.big1, args.big2, args.big3, args.big4, args.big5, args.big6, args.big7, args.big8, args.big9, args.array@),
    {
        Self { bytes: big_build(args.big0, args.big1, args.big2, args.big3, args.big4, args.big5, args.big6, args.big7, args.big8, args.big9, args.array.as_slice()) }
    }

    /// Get the big0 value from the key.
    pub fn big0(&self) -> (r: u128)
        requires
            self.wf(),
        ensures
            r as nat == be_val(self@.subrange(0, 16)),
    {
        read_u128(&self.bytes, 0)
    }

    /// Set the big0 value in the key, touching no other byte.
    pub fn set_big0(&mut self, value: u128)
        requires
            old(self).wf(),
        ensures
            final(self).wf(),
            final(self)@ == spliced(old(self)@, 0, be_seq(value as nat, 16)),
    {
        proof {
            crate::bytes::lemma_be_seq_len(value as nat, 16);
        }
        write_u128(&mut self.bytes, 0, value)
    }

    /// Get the big1 value from the key.
    pub fn big1(&self) -> (r: u128)
        requires
            self.wf(),
        ensures
            r as nat == be_val(self@.subrange(16, 32)),
    {
        read_u128(&self.bytes, 16)
    }

    /// Set the big1 value in the key, touching no other byte.
    pub fn set_big1(&mut self, value: u128)
        requires
            old(self).wf(),
        ensures
            final(self).wf(),
            final(self)@ == spliced(old(self)@, 16, be_seq(value as nat, 16)),
    {
        proof {
            crate::bytes::lemma_be_seq_len(value as nat, 16);
        }
        write_u128(&mut self.bytes, 16, value)
    }

    /// Get the big2 value from the key.
    pub fn big2(&self) -> (r: u128)
        requires
            self.wf(),
        ensures
            r as nat == be_val(self@.subrange(32, 48)),
    {
        read_u128(&self.bytes, 32)
    }

    /// Set the big2 value in the key, touching no other byte.
    pub fn set_big2(&mut self, value: u128)
        requires
            old(self).wf(),
        ensures
            final(self).wf(),
            final(self)@ == spliced(old(self)@, 32, be_seq(value as nat, 16)),
    {
        proof {
            crate::bytes::lemma_be_seq_len(value as nat, 16);
        }
        write_u128(&mut self.bytes, 32, value)
    }

    /// Get the big3 value from the key.
    pub fn big3(&self) -> (r: u128)
        requires
            self.wf(),
        ensures
            r as nat == be_val(self@.subrange(48, 64)),
    {
        read_u128(&self.bytes, 48)
    }

    /// Set the big3 value in the key, touching no other byte.
    pub fn set_big3(&mut self, value: u128)
        requires
            old(self).wf(),
        ensures
            final(self).wf(),
            final(self)@ == spliced(old(self)@, 48, be_seq(value as nat, 16)),
    {
        proof {
            crate::bytes::lemma_be_seq_len(value as nat, 16);
        }
        write_u128(&mut self.bytes, 48, value)
    }

    /// Get the big4 value from the key.
    pub fn big4(&self) -> (r: u128)
        requires
            self.wf(),
        ensures
            r as nat == be_val(self@.subrange(64, 80)),
    {
        read_u128(&self.bytes, 64)
    }

    /// Set the big4 value in the key, touching no other byte.
    pub fn set_big4(&mut self, value: u128)
        requires
            old(self).wf(),
        ensures
            final(self).wf(),
            final(self)@ == spliced(old(self)@, 64, be_seq(value as nat, 16)),
    {
        proof {
            crate::bytes::lemma_be_seq_len(value as nat, 16);
        }
        write_u128(&mut self.bytes, 64, value)
    }

    /// Get the big5 value from the key.
    pub fn big5(&self) -> (r: u128)
        requires
            self.wf(),
        ensures
            r as nat == be_val(self@.subrange(80, 96)),
    {
        read_u128(&self.bytes, 80)
    }

    /// Set the big5 value in the key, touching no other byte.
    pub fn set_big5(&mut self, value: u128)
        requires
            old(self).wf(),
        ensures
            final(self).wf(),
            final(self)@ == spliced(old(self)@, 80, be_seq(value as nat, 16)),
    {
        proof {
            crate::bytes::lemma_be_seq_len(value as nat, 16);
        }
        write_u128(&mut self.bytes, 80, value)
    }

    /// Get the big6 value from the key.
    pub fn big6(&self) -> (r: u128)
        requires
            self.wf(),
        ensures
            r as nat == be_val(self@.subrange(96, 112)),
    {
        read_u128(&self.bytes, 96)
    }

    /// Set the big6 value in the key, touching no other byte.
    pub fn set_big6(&mut self, value: u128)
        requires
            old(self).wf(),
        ensures
            final(self).wf(),
            final(self)@ == spliced(old(self)@, 96, be_seq(value as nat, 16)),
    {
        proof {
            crate::bytes::lemma_be_seq_len(value as nat, 16);
        }
        write_u128(&mut self.bytes, 96, value)
    }

    /// Get the big7 value from the key.
    pub fn big7(&self) -> (r: u128)
        requires
            self.wf(),
        ensures
            r as nat == be_val(self@.subrange(112, 128)),
    {
        read_u128(&self.bytes, 112)
    }

    /// Set the big7 value in the key, touching no other byte.
    pub fn set_big7(&mut self, value: u128)
        requires
            old(self).wf(),
        ensures
            final(self).wf(),
            final(self)@ == spliced(old(self)@, 112, be_seq(value as nat, 16)),
    {
        proof {
            crate::bytes::lemma_be_seq_len(value as nat, 16);
        }
        write_u128(&mut self.bytes, 112, value)
    }

    /// Get the big8 value from the key.
    pub fn big8(&self) -> (r: u128)
        requires
            self.wf(),
        ensures
            r as nat == be_val(self@.subrange(128, 144)),
    {
        read_u128(&self.bytes, 128)
    }

    /// Set the big8 value in the key, touching no other byte.
    pub fn set_big8(&mut self, value: u128)
        requires
            old(self).wf(),
        ensures
            final(self).wf(),
            final(self)@ == spliced(old(self)@, 128, be_seq(value as nat, 16)),
    {
        proof {
            crate::bytes::lemma_be_seq_len(value as nat, 16);
        }
        write_u128(&mut self.bytes, 128, value)
    }

    /// Get the big9 value from the key.
    pub fn big9(&self) -> (r: u128)
        requires
            self.wf(),
        ensures
            r as nat == be_val(self@.subrange(144, 160)),
    {
        read_u128(&self.bytes, 144)
    }

    /// Set the big9 value in the key, touching no other byte.
    pub fn set_big9(&mut self, value: u128)
        requires
            old(self).wf(),
        ensures
            final(self).wf(),
            final(self)@ == spliced(old(self)@, 144, be_seq(value as nat, 16)),
    {
        proof {
            crate::bytes::lemma_be_seq_len(value as nat, 16);
        }
        write_u128(&mut self.bytes, 144, value)
    }

    /// Borrow the array bytes of the key.
    pub fn array(&self) -> (r: &[u8])
        requires
            self.wf(),
        ensures
            r@ == self@.subrange(160, 320),
    {
        vstd::slice::slice_subrange(self.bytes.as_slice(), 160, 320)
    }

    /// Set the array bytes in the key, touching no other byte.
    pub fn set_array(&mut self, value: &[u8])
        requires
            old(self).wf(),
            value@.len() == 160,
        ensures
            final(self).wf(),
            final(self)@ == spliced(old(self)@, 160, value@),
    {
        write_bytes(&mut self.bytes, 160, value)
    }

    /// Ingest any byte slice: short input is zero-padded, long input
    /// truncated.
    pub fn from_slice(raw: &[u8]) -> (r: Self)
        ensures
            r.wf(),
            r@ == padded(raw@, 320),
    {
        Self { bytes: pad_bytes(raw, 320) }
    }

    /// The full key buffer, borrowed.
    pub fn as_bytes(&self) -> (r: &[u8])
        ensures
            r@ == self@,
    {
        self.bytes.as_slice()
    }

    /// The full key buffer, owned.
    pub fn to_vec(&self) -> (r: Vec<u8>)
        ensures
            r@ == self@,
    {
        vstd::slice::slice_to_vec(self.bytes.as_slice())
    }

    /// The smallest encodable key: no field narrows its bounds, so
    /// this is the all-zero buffer.
    pub fn min_key() -> (r: Self)
        ensures
            r.wf(),
            r@ == Seq::new(320, |i: int| 0u8),
    {
        let r = Self { bytes: vec![0u8; 320] };
        proof {
            assert(r@ =~= Seq::new(320, |i: int| 0u8));
        }
        r
    }

    /// The largest encodable key: no field narrows its bounds, so
    /// this is the all-`0xFF` buffer.
    pub fn max_key() -> (r: Self)
        ensures
            r.wf(),
            r@ == Seq::new(320, |i: int| 0xFFu8),
    {
        let r = Self { bytes: vec![0xFFu8; 320] };
        proof {
            assert(r@ =~= Seq::new(320, |i: int| 0xFFu8));
        }
        r
    }

    /// The raw key bytes in the compact diagnostic format.
    pub fn raw_debug(&self) -> (r: String)
        requires
            self.wf(),
        ensures
            r@ == compact_render(self@, big_sizes()),
    {
        let sizes = big_sizes_exec();
        proof {
            lemma_big_sizes_sum();
        }
        render_compact(self.bytes.as_slice(), &sizes)
    }
}

impl Default for BigKey {
    /// Every field at its configured default.
    fn default() -> (r: BigKey)
        ensures
            r.wf(),
            r@ == big_layout(0u128, 0u128, 0u128, 0u128, 0u128, 0u128, 0u128, 0u128, 0u128, 0u128, Seq::new(160, |i: int| 0u8)),
    {
        BigKey { bytes: big_build(0u128, 0u128, 0u128, 0u128, 0u128, 0u128, 0u128, 0u128, 0u128, 0u128, [0u8; 160].as_slice()) }
    }
}

/// Argument structure used to create [`BigKey`] values, with the
/// configured per-field defaults.
#[derive(Copy, Clone, Debug, PartialEq, Eq)]
pub struct BigKeyArgs {
    pub big0: u128,
    pub big1: u128,
    pub big2: u128,
    pub big3: u128,
    pub big4: u128,
    pub big5: u128,
    pub big6: u128,
    pub big7: u128,
    pub big8: u128,
    pub big9: u128,
    pub array: [u8; 160],
}

impl Default for BigKeyArgs {
    /// Every argument at its field's configured default.
    fn default() -> (r: BigKeyArgs)
        ensures
            r.big0 == 0u128,
            r.big1 == 0u128,
            r.big2 == 0u128,
            r.big3 == 0u128,
            r.big4 == 0u128,
            r.big5 == 0u128,
            r.big6 == 0u128,
            r.big7 == 0u128,
            r.big8 == 0u128,
            r.big9 == 0u128,
            r.array@ == Seq::new(160, |i: int| 0u8),
    {
        let r = BigKeyArgs {
            big0: 0u128,
            big1: 0u128,
            big2: 0u128,
            big3: 0u128,
            big4: 0u128,
            big5: 0u128,
            big6: 0u128,
            big7: 0u128,
            big8: 0u128,
            big9: 0u128,
            array: [0u8; 160],
        };
        proof {
            assert(r.array@ =~= Seq::new(160, |i: int| 0u8));
        }
        r
    }
}

/// A sample key with defaults on every field after the first.
#[derive(Clone, Debug, PartialEq, Eq, Hash)]
pub struct NoDocKey {
    bytes: Vec<u8>,
}

impl View for NoDocKey {
    type V = Seq<u8>;

    closed spec fn view(&self) -> Seq<u8> {
        self.bytes@
    }
}

impl NoDocKey {
    /// The size in bytes of the key data.
    pub const KEY_LENGTH: usize = 18;

    /// A buffer of exactly the key's width.
    pub open spec fn wf(self) -> bool {
        self@.len() == 18
    }

    /// Pack one value per field into a fresh key.
    pub fn new(id: u64, word: u16, byte: u8, long: u32, end: [u8; 3]) -> (r: Self)
        ensures
            r.wf(),
            r@ == standard_layout(id, word, byte, long, end@),
    {
        Self { bytes: standard_build(id, word, byte, long, end.as_slice()) }
    }

    /// Build a key from an argument structure, typically one where
    /// omitted fields were left at their defaults.
    pub fn from_args(args: NoDocKeyArgs) -> (r: Self)
        ensures
            r.wf(),
            r@ == standard_layout(args.id, args.word, args.byte, args.long, args.end@),
    {
        Self { bytes: standard_build(args.id, args.word, args.byte, args.long, args.end.as_slice()) }
    }

    /// Get the id value from the key.
    pub fn id(&self) -> (r: u64)
        requires
            self.wf(),
        ensures
            r as nat == be_val(self@.subrange(0, 8)),
    {
        read_u64(&self.bytes, 0)
    }

    /// Set the id value in the key, touching no other byte.
    pub fn set_id(&mut self, value: u64)
        requires
            old(self).wf(),
        ensures
            final(self).wf(),
            final(self)@ == spliced(old(self)@, 0, be_seq(value as nat, 8)),
    {
        proof {
            crate::bytes::lemma_be_seq_len(value as nat, 8);
        }
        write_u64(&mut self.bytes, 0, value)
    }

    /// Get the word value from the key.
    pub fn word(&self) -> (r: u16)
        requires
            self.wf(),
        ensures
            r as nat == be_val(self@.subrange(8, 10)),
    {
        read_u16(&self.bytes, 8)
    }

    /// Set the word value in the key, touching no other byte.
    pub fn set_word(&mut self, value: u16)
        requires
            old(self).wf(),
        ensures
            final(self).wf(),
            final(self)@ == spliced(old(self)@, 8, be_seq(value as nat, 2)),
    {
        proof {
            crate::bytes::lemma_be_seq_len(value as nat, 2);
        }
        write_u16(&mut self.bytes, 8, value)
    }

    /// Get the byte value from the key.
    pub fn byte(&self) -> (r: u8)
        requires
            self.wf(),
        ensures
            r as nat == be_val(self@.subrange(10, 11)),
    {
        read_u8(&self.bytes, 10)
    }

    /// Set the byte value in the key, touching no other byte.
    pub fn set_byte(&mut self, value: u8)
        requires
            old(self).wf(),
        ensures
            final(self).wf(),
            final(self)@ == spliced(old(self)@, 10, be_seq(value as nat, 1)),
    {
        proof {
            crate::bytes::lemma_be_seq_len(value as nat, 1);
        }
        write_u8(&mut self.bytes, 10, value)
    }

    /// Get the long value from the key.
    pub fn long(&self) -> (r: u32)
        requires
            self.wf(),
        ensures
            r as nat == be_val(self@.subrange(11, 15)),
    {
        read_u32(&self.bytes, 11)
    }

    /// Set the long value in the key, touching no other byte.
    pub fn set_long(&mut self, value: u32)
        requires
            old(self).wf(),
        ensures
            final(self).wf(),
            final(self)@ == spliced(old(self)@, 11, be_seq(value as nat, 4)),
    {
        proof {
            crate::bytes::lemma_be_seq_len(value as nat, 4);
        }
        write_u32(&mut self.bytes, 11, value)
    }

    /// Borrow the end bytes of the key.
    pub fn end(&self) -> (r: &[u8])
        requires
            self.wf(),
        ensures
            r@ == self@.subrange(15, 18),
    {
        vstd::slice::slice_subrange(self.bytes.as_slice(), 15, 18)
    }

    /// Set the end bytes in the key, touching no other byte.
    pub fn set_end(&mut self, value: &[u8])
        requires
            old(self).wf(),
            value@.len() == 3,
        ensures
            final(self).wf(),
            final(self)@ == spliced(old(self)@, 15, value@),
    {
        write_bytes(&mut self.bytes, 15, value)
    }

    /// Ingest any byte slice: short input is zero-padded, long input
    /// truncated.
    pub fn from_slice(raw: &[u8]) -> (r: Self)
        ensures
            r.wf(),
            r@ == padded(raw@, 18),
    {
        Self { bytes: pad_bytes(raw, 18) }
    }

    /// The full key buffer, borrowed.
    pub fn as_bytes(&self) -> (r: &[u8])
        ensures
            r@ == self@,
    {
        self.bytes.as_slice()
    }

    /// The full key buffer, owned.
    pub fn to_vec(&self) -> (r: Vec<u8>)
        ensures
            r@ == self@,
    {
        vstd::slice::slice_to_vec(self.bytes.as_slice())
    }

    /// The smallest encodable key: no field narrows its bounds, so
    /// this is the all-zero buffer.
    pub fn min_key() -> (r: Self)
        ensures
            r.wf(),
            r@ == Seq::new(18, |i: int| 0u8),
    {
        let r = Self { bytes: vec![0u8; 18] };
        proof {
            assert(r@ =~= Seq::new(18, |i: int| 0u8));
        }
        r
    }

    /// The largest encodable key: no field narrows its bounds, so
    /// this is the all-`0xFF` buffer.
    pub fn max_key() -> (r: Self)
        ensures
            r.wf(),
            r@ == Seq::new(18, |i: int| 0xFFu8),
    {
        let r = Self { bytes: vec![0xFFu8; 18] };
        proof {
            assert(r@ =~= Seq::new(18, |i: int| 0xFFu8));
        }
        r
    }

    /// The raw key bytes in the compact diagnostic format.
    pub fn raw_debug(&self) -> (r: String)
        requires
            self.wf(),
        ensures
            r@ == compact_render(self@, standard_sizes()),
    {
        let sizes = standard_sizes_exec();
        proof {
            lemma_standard_sizes_sum();
        }
        render_compact(self.bytes.as_slice(), &sizes)
    }
}

impl Default for NoDocKey {
    /// Every field at its configured default.
    fn default() -> (r: NoDocKey)
        ensures
            r.wf(),
            r@ == standard_layout(0u64, 12345u16, 105u8, 0x12345678u32, Seq::new(3, |i: int| 0xABu8)),
    {
        NoDocKey { bytes: standard_build(0u64, 12345u16, 105u8, 0x12345678u32, [0xABu8; 3].as_slice()) }
    }
}

/// Argument structure used to create [`NoDocKey`] values, with the
/// configured per-field defaults.
#[derive(Copy, Clone, Debug, PartialEq, Eq)]
pub struct NoDocKeyArgs {
    pub id: u64,
    pub word: u16,
    pub byte: u8,
    pub long: u32,
    pub end: [u8; 3],
}

impl Default for NoDocKeyArgs {
    /// Every argument at its field's configured default.
    fn default() -> (r: NoDocKeyArgs)
        ensures
            r.id == 0u64,
            r.word == 12345u16,
            r.byte == 105u8,
            r.long == 0x12345678u32,
            r.end@ == Seq::new(3, |i: int| 0xABu8),
    {
        let r = NoDocKeyArgs {
            id: 0u64,
            word: 12345u16,
            byte: 105u8,
            long: 0x12345678u32,
            end: [0xABu8; 3],
        };
        proof {
            assert(r.end@ =~= Seq::new(3, |i: int| 0xABu8));
        }
        r
    }
}

/// A sample key with per-field minimum and maximum overrides, so
/// its whole-key bounds need the per-field walk.
#[derive(Clone, Debug, PartialEq, Eq, Hash)]
pub struct MinMaxKey {
    bytes: Vec<u8>,
}

impl View for MinMaxKey {
    type V = Seq<u8>;

    closed spec fn view(&self) -> Seq<u8> {
        self.bytes@
    }
}

impl MinMaxKey {
    /// The size in bytes of the key data.
    pub const KEY_LENGTH: usize = 18;

    /// A buffer of exactly the key's width.
    pub open spec fn wf(self) -> bool {
        self@.len() == 18
    }

    /// Pack one value per field into a fresh key.
    pub fn new(id: u64, word: u16, byte: u8, long: u32, end: [u8; 3]) -> (r: Self)
        ensures
            r.wf(),
            r@ == standard_layout(id, word, byte, long, end@),
    {
        Self { bytes: standard_build(id, word, byte, long, end.as_slice()) }
    }

    /// Build a key from an argument structure, typically one where
    /// omitted fields were left at their defaults.
    pub fn from_args(args: MinMaxKeyArgs) -> (r: Self)
        ensures
            r.wf(),
            r@ == standard_layout(args.id, args.word, args.byte, args.long, args.end@),
    {
        Self { bytes: standard_build(args.id, args.word, args.byte, args.long, args.end.as_slice()) }
    }

    /// Get the id value from the key.
    pub fn id(&self) -> (r: u64)
        requires
            self.wf(),
        ensures
            r as nat == be_val(self@.subrange(0, 8)),
    {
        read_u64(&self.bytes, 0)
    }

    /// Set the id value in the key, touching no other byte.
    pub fn set_id(&mut self, value: u64)
        requires
            old(self).wf(),
        ensures
            final(self).wf(),
            final(self)@ == spliced(old(self)@, 0, be_seq(value as nat, 8)),
    {
        proof {
            crate::bytes::lemma_be_seq_len(value as nat, 8);
        }
        write_u64(&mut self.bytes, 0, value)
    }

    /// Get the word value from the key.
    pub fn word(&self) -> (r: u16)
        requires
            self.wf(),
        ensures
            r as nat == be_val(self@.subrange(8, 10)),
    {
        read_u16(&self.bytes, 8)
    }

    /// Set the word value in the key, touching no other byte.
    pub fn set_word(&mut self, value: u16)
        requires
            old(self).wf(),
        ensures
            final(self).wf(),
            final(self)@ == spliced(old(self)@, 8, be_seq(value as nat, 2)),
    {
        proof {
            crate::bytes::lemma_be_seq_len(value as nat, 2);
        }
        write_u16(&mut self.bytes, 8, value)
    }

    /// Get the byte value from the key.
    pub fn byte(&self) -> (r: u8)
        requires
            self.wf(),
        ensures
            r as nat == be_val(self@.subrange(10, 11)),
    {
        read_u8(&self.bytes, 10)
    }

    /// Set the byte value in the key, touching no other byte.
    pub fn set_byte(&mut self, value: u8)
        requires
            old(self).wf(),
        ensures
            final(self).wf(),
            final(self)@ == spliced(old(self)@, 10, be_seq(value as nat, 1)),
    {
        proof {
            crate::bytes::lemma_be_seq_len(value as nat, 1);
        }
        write_u8(&mut self.bytes, 10, value)
    }

    /// Get the long value from the key.
    pub fn long(&self) -> (r: u32)
        requires
            self.wf(),
        ensures
            r as nat == be_val(self@.subrange(11, 15)),
    {
        read_u32(&self.bytes, 11)
    }

    /// Set the long value in the key, touching no other byte.
    pub fn set_long(&mut self, value: u32)
        requires
            old(self).wf(),
        ensures
            final(self).wf(),
            final(self)@ == spliced(old(self)@, 11, be_seq(value as nat, 4)),
    {
        proof {
            crate::bytes::lemma_be_seq_len(value as nat, 4);
        }
        write_u32(&mut self.bytes, 11, value)
    }

    /// Borrow the end bytes of the key.
    pub fn end(&self) -> (r: &[u8])
        requires
            self.wf(),
        ensures
            r@ == self@.subrange(15, 18),
    {
        vstd::slice::slice_subrange(self.bytes.as_slice(), 15, 18)
    }

    /// Set the end bytes in the key, touching no other byte.
    pub fn set_end(&mut self, value: &[u8])
        requires
            old(self).wf(),
            value@.len() == 3,
        ensures
            final(self).wf(),
            final(self)@ == spliced(old(self)@, 15, value@),
    {
        write_bytes(&mut self.bytes, 15, value)
    }

    /// Ingest any byte slice: short input is zero-padded, long input
    /// truncated.
    pub fn from_slice(raw: &[u8]) -> (r: Self)
        ensures
            r.wf(),
            r@ == padded(raw@, 18),
    {
        Self { bytes: pad_bytes(raw, 18) }
    }

    /// The full key buffer, borrowed.
    pub fn as_bytes(&self) -> (r: &[u8])
        ensures
            r@ == self@,
    {
        self.bytes.as_slice()
    }

    /// The full key buffer, owned.
    pub fn to_vec(&self) -> (r: Vec<u8>)
        ensures
            r@ == self@,
    {
        vstd::slice::slice_to_vec(self.bytes.as_slice())
    }

    /// The smallest encodable key: every field at its configured
    /// minimum.
    pub fn min_key() -> (r: Self)
        ensures
            r.wf(),
            r@ == standard_layout(1u64, 150u16, 255u8, 0x99999999u32, Seq::new(3, |i: int| 0x20u8)),
    {
        Self { bytes: standard_build(1u64, 150u16, 255u8, 0x99999999u32, [0x20u8; 3].as_slice()) }
    }

    /// The largest encodable key: every field at its configured
    /// maximum.
    pub fn max_key() -> (r: Self)
        ensures
            r.wf(),
            r@ == standard_layout(0x8000000000000000u64, 60000u16, 255u8, 0xFFFFFFFFu32, Seq::new(3, |i: int| 0xEFu8)),
    {
        Self { bytes: standard_build(0x8000000000000000u64, 60000u16, 255u8, 0xFFFFFFFFu32, [0xEFu8; 3].as_slice()) }
    }

    /// The raw key bytes in the compact diagnostic format.
    pub fn raw_debug(&self) -> (r: String)
        requires
            self.wf(),
        ensures
            r@ == compact_render(self@, standard_sizes()),
    {
        let sizes = standard_sizes_exec();
        proof {
            lemma_standard_sizes_sum();
        }
        render_compact(self.bytes.as_slice(), &sizes)
    }
}

impl Default for MinMaxKey {
    /// Every field at its configured default.
    fn default() -> (r: MinMaxKey)
        ensures
            r.wf(),
            r@ == standard_layout(0u64, 12453u16, 255u8, 0x18245637u32, Seq::new(3, |i: int| 0xBAu8)),
    {
        MinMaxKey { bytes: standard_build(0u64, 12453u16, 255u8, 0x18245637u32, [0xBAu8; 3].as_slice()) }
    }
}

/// Argument structure used to create [`MinMaxKey`] values, with the
/// configured per-field defaults.
#[derive(Copy, Clone, Debug, PartialEq, Eq)]
pub struct MinMaxKeyArgs {
    pub id: u64,
    pub word: u16,
    pub byte: u8,
    pub long: u32,
    pub end: [u8; 3],
}

impl Default for MinMaxKeyArgs {
    /// Every argument at its field's configured default.
    fn default() -> (r: MinMaxKeyArgs)
        ensures
            r.id == 0u64,
            r.word == 12453u16,
            r.byte == 255u8,
            r.long == 0x18245637u32,
            r.end@ == Seq::new(3, |i: int| 0xBAu8),
    {
        let r = MinMaxKeyArgs {
            id: 0u64,
            word: 12453u16,
            byte: 255u8,
            long: 0x18245637u32,
            end: [0xBAu8; 3],
        };
        proof {
            assert(r.end@ =~= Seq::new(3, |i: int| 0xBAu8));
        }
        r
    }
}

/// A sample key of signed fields, stored with the sign-flip
/// transform, with per-field bound overrides.
#[derive(Clone, Debug, PartialEq, Eq, Hash)]
pub struct SignedKey {
    bytes: Vec<u8>,
}

impl View for SignedKey {
    type V = Seq<u8>;

    closed spec fn view(&self) -> Seq<u8> {
        self.bytes@
    }
}

impl SignedKey {
    /// The size in bytes of the key data.
    pub const KEY_LENGTH: usize = 18;

    /// A buffer of exactly the key's width.
    pub open spec fn wf(self) -> bool {
        self@.len() == 18
    }

    /// Pack one value per field into a fresh key.
    pub fn new(id: i64, word: i16, byte: i8, long: i32, end: [u8; 3]) -> (r: Self)
        ensures
            r.wf(),
            r@ == signed_layout(id, word, byte, long, end@),
    {
        Self { bytes: signed_build(id, word, byte, long, end.as_slice()) }
    }

    /// Build a key from an argument structure, typically one where
    /// omitted fields were left at their defaults.
    pub fn from_args(args: SignedKeyArgs) -> (r: Self)
        ensures
            r.wf(),
            r@ == signed_layout(args.id, args.word, args.byte, args.long, args.end@),
    {
        Self { bytes: signed_build(args.id, args.word, args.byte, args.long, args.end.as_slice()) }
    }

    /// Get the id value from the key.
    pub fn id(&self) -> (r: i64)
        requires
            self.wf(),
        ensures
            r as int == FieldSize::Signed64.decode_int(self@.subrange(0, 8)),
    {
        read_i64(&self.bytes, 0)
    }

    /// Set the id value in the key, touching no other byte.
    pub fn set_id(&mut self, value: i64)
        requires
            old(self).wf(),
        ensures
            final(self).wf(),
            final(self)@ == spliced(old(self)@, 0, FieldSize::Signed64.encode_int(value as int)),
    {
        proof {
            crate::bytes::lemma_be_seq_len(
                (value as int + FieldSize::Signed64.bias()) as nat,
                8,
            );
        }
        write_i64(&mut self.bytes, 0, value)
    }

    /// Get the word value from the key.
    pub fn word(&self) -> (r: i16)
        requires
            self.wf(),
        ensures
            r as int == FieldSize::Signed16.decode_int(self@.subrange(8, 10)),
    {
        read_i16(&self.bytes, 8)
    }

    /// Set the word value in the key, touching no other byte.
    pub fn set_word(&mut self, value: i16)
        requires
            old(self).wf(),
        ensures
            final(self).wf(),
            final(self)@ == spliced(old(self)@, 8, FieldSize::Signed16.encode_int(value as int)),
    {
        proof {
            crate::bytes::lemma_be_seq_len(
                (value as int + FieldSize::Signed16.bias()) as nat,
                2,
            );
        }
        write_i16(&mut self.bytes, 8, value)
    }

    /// Get the byte value from the key.
    pub fn byte(&self) -> (r: i8)
        requires
            self.wf(),
        ensures
            r as int == FieldSize::Signed8.decode_int(self@.subrange(10, 11)),
    {
        read_i8(&self.bytes, 10)
    }

    /// Set the byte value in the key, touching no other byte.
    pub fn set_byte(&mut self, value: i8)
        requires
            old(self).wf(),
        ensures
            final(self).wf(),
            final(self)@ == spliced(old(self)@, 10, FieldSize::Signed8.encode_int(value as int)),
    {
        proof {
            crate::bytes::lemma_be_seq_len(
                (value as int + FieldSize::Signed8.bias()) as nat,
                1,
            );
        }
        write_i8(&mut self.bytes, 10, value)
    }

    /// Get the long value from the key.
    pub fn long(&self) -> (r: i32)
        requires
            self.wf(),
        ensures
            r as int == FieldSize::Signed32.decode_int(self@.subrange(11, 15)),
    {
        read_i32(&self.bytes, 11)
    }

    /// Set the long value in the key, touching no other byte.
    pub fn set_long(&mut self, value: i32)
        requires
            old(self).wf(),
        ensures
            final(self).wf(),
            final(self)@ == spliced(old(self)@, 11, FieldSize::Signed32.encode_int(value as int)),
    {
        proof {
            crate::bytes::lemma_be_seq_len(
                (value as int + FieldSize::Signed32.bias()) as nat,
                4,
            );
        }
        write_i32(&mut self.bytes, 11, value)
    }

    /// Borrow the end bytes of the key.
    pub fn end(&self) -> (r: &[u8])
        requires
            self.wf(),
        ensures
            r@ == self@.subrange(15, 18),
    {
        vstd::slice::slice_subrange(self.bytes.as_slice(), 15, 18)
    }

    /// Set the end bytes in the key, touching no other byte.
    pub fn set_end(&mut self, value: &[u8])
        requires
            old(self).wf(),
            value@.len() == 3,
        ensures
            final(self).wf(),
            final(self)@ == spliced(old(self)@, 15, value@),
    {
        write_bytes(&mut self.bytes, 15, value)
    }

    /// Ingest any byte slice: short input is zero-padded, long input
    /// truncated.
    pub fn from_slice(raw: &[u8]) -> (r: Self)
        ensures
            r.wf(),
            r@ == padded(raw@, 18),
    {
        Self { bytes: pad_bytes(raw, 18) }
    }

    /// The full key buffer, borrowed.
    pub fn as_bytes(&self) -> (r: &[u8])
        ensures
            r@ == self@,
    {
        self.bytes.as_slice()
    }

    /// The full key buffer, owned.
    pub fn to_vec(&self) -> (r: Vec<u8>)
        ensures
            r@ == self@,
    {
        vstd::slice::slice_to_vec(self.bytes.as_slice())
    }

    /// The smallest encodable key: every field at its configured
    /// minimum.
    pub fn min_key() -> (r: Self)
        ensures
            r.wf(),
            r@ == signed_layout(-1234567890i64, 150i16, 127i8, 0x77777777i32, Seq::new(3, |i: int| 0x20u8)),
    {
        Self { bytes: signed_build(-1234567890i64, 150i16, 127i8, 0x77777777i32, [0x20u8; 3].as_slice()) }
    }

    /// The largest encodable key: every field at its configured
    /// maximum.
    pub fn max_key() -> (r: Self)
        ensures
            r.wf(),
            r@ == signed_layout(1234567890i64, 30000i16, 127i8, 0x7FFFFFFFi32, seq![0xFFu8, 0xF0u8, 0xF0u8]),
    {
        Self { bytes: signed_build(1234567890i64, 30000i16, 127i8, 0x7FFFFFFFi32, [0xFFu8, 0xF0u8, 0xF0u8].as_slice()) }
    }

    /// The raw key bytes in the compact diagnostic format.
    pub fn raw_debug(&self) -> (r: String)
        requires
            self.wf(),
        ensures
            r@ == compact_render(self@, standard_sizes()),
    {
        let sizes = standard_sizes_exec();
        proof {
            lemma_standard_sizes_sum();
        }
        render_compact(self.bytes.as_slice(), &sizes)
    }
}

impl Default for SignedKey {
    /// Every field at its configured default.
    fn default() -> (r: SignedKey)
        ensures
            r.wf(),
            r@ == signed_layout(0i64, 12453i16, 127i8, 0x18245637i32, Seq::new(3, |i: int| 0xBAu8)),
    {
        SignedKey { bytes: signed_build(0i64, 12453i16, 127i8, 0x18245637i32, [0xBAu8; 3].as_slice()) }
    }
}

/// Argument structure used to create [`SignedKey`] values, with the
/// configured per-field defaults.
#[derive(Copy, Clone, Debug, PartialEq, Eq)]
pub struct SignedKeyArgs {
    pub id: i64,
    pub word: i16,
    pub byte: i8,
    pub long: i32,
    pub end: [u8; 3],
}

impl Default for SignedKeyArgs {
    /// Every argument at its field's configured default.
    fn default() -> (r: SignedKeyArgs)
        ensures
            r.id == 0i64,
            r.word == 12453i16,
            r.byte == 127i8,
            r.long == 0x18245637i32,
            r.end@ == Seq::new(3, |i: int| 0xBAu8),
    {
        let r = SignedKeyArgs {
            id: 0i64,
            word: 12453i16,
            byte: 127i8,
            long: 0x18245637i32,
            end: [0xBAu8; 3],
        };
        proof {
            assert(r.end@ =~= Seq::new(3, |i: int| 0xBAu8));
        }
        r
    }
}

/// A sample key that exposes neither whole-key bound.
#[derive(Clone, Debug, PartialEq, Eq, Hash)]
pub struct NoMinMaxKey {
    bytes: Vec<u8>,
}

impl View for NoMinMaxKey {
    type V = Seq<u8>;

    closed spec fn view(&self) -> Seq<u8> {
        self.bytes@
    }
}

impl NoMinMaxKey {
    /// The size in bytes of the key data.
    pub const KEY_LENGTH: usize = 18;

    /// A buffer of exactly the key's width.
    pub open spec fn wf(self) -> bool {
        self@.len() == 18
    }

    /// Pack one value per field into a fresh key.
    pub fn new(id: u64, word: u16, byte: u8, long: u32, end: [u8; 3]) -> (r: Self)
        ensures
            r.wf(),
            r@ == standard_layout(id, word, byte, long, end@),
    {
        Self { bytes: standard_build(id, word, byte, long, end.as_slice()) }
    }

    /// Build a key from an argument structure, typically one where
    /// omitted fields were left at their defaults.
    pub fn from_args(args: NoMinMaxKeyArgs) -> (r: Self)
        ensures
            r.wf(),
            r@ == standard_layout(args.id, args.word, args.byte, args.long, args.end@),
    {
        Self { bytes: standard_build(args.id, args.word, args.byte, args.long, args.end.as_slice()) }
    }

    /// Get the id value from the key.
    pub fn id(&self) -> (r: u64)
        requires
            self.wf(),
        ensures
            r as nat == be_val(self@.subrange(0, 8)),
    {
        read_u64(&self.bytes, 0)
    }

    /// Set the id value in the key, touching no other byte.
    pub fn set_id(&mut self, value: u64)
        requires
            old(self).wf(),
        ensures
            final(self).wf(),
            final(self)@ == spliced(old(self)@, 0, be_seq(value as nat, 8)),
    {
        proof {
            crate::bytes::lemma_be_seq_len(value as nat, 8);
        }
        write_u64(&mut self.bytes, 0, value)
    }

    /// Get the word value from the key.
    pub fn word(&self) -> (r: u16)
        requires
            self.wf(),
        ensures
            r as nat == be_val(self@.subrange(8, 10)),
    {
        read_u16(&self.bytes, 8)
    }

    /// Set the word value in the key, touching no other byte.
    pub fn set_word(&mut self, value: u16)
        requires
            old(self).wf(),
        ensures
            final(self).wf(),
            final(self)@ == spliced(old(self)@, 8, be_seq(value as nat, 2)),
    {
        proof {
            crate::bytes::lemma_be_seq_len(value as nat, 2);
        }
        write_u16(&mut self.bytes, 8, value)
    }

    /// Get the byte value from the key.
    pub fn byte(&self) -> (r: u8)
        requires
            self.wf(),
        ensures
            r as nat == be_val(self@.subrange(10, 11)),
    {
        read_u8(&self.bytes, 10)
    }

    /// Set the byte value in the key, touching no other byte.
    pub fn set_byte(&mut self, value: u8)
        requires
            old(self).wf(),
        ensures
            final(self).wf(),
            final(self)@ == spliced(old(self)@, 10, be_seq(value as nat, 1)),
    {
        proof {
            crate::bytes::lemma_be_seq_len(value as nat, 1);
        }
        write_u8(&mut self.bytes, 10, value)
    }

    /// Get the long value from the key.
    pub fn long(&self) -> (r: u32)
        requires
            self.wf(),
        ensures
            r as nat == be_val(self@.subrange(11, 15)),
    {
        read_u32(&self.bytes, 11)
    }

    /// Set the long value in the key, touching no other byte.
    pub fn set_long(&mut self, value: u32)
        requires
            old(self).wf(),
        ensures
            final(self).wf(),
            final(self)@ == spliced(old(self)@, 11, be_seq(value as nat, 4)),
    {
        proof {
            crate::bytes::lemma_be_seq_len(value as nat, 4);
        }
        write_u32(&mut self.bytes, 11, value)
    }

    /// Borrow the end bytes of the key.
    pub fn end(&self) -> (r: &[u8])
        requires
            self.wf(),
        ensures
            r@ == self@.subrange(15, 18),
    {
        vstd::slice::slice_subrange(self.bytes.as_slice(), 15, 18)
    }

    /// Set the end bytes in the key, touching no other byte.
    pub fn set_end(&mut self, value: &[u8])
        requires
            old(self).wf(),
            value@.len() == 3,
        ensures
            final(self).wf(),
            final(self)@ == spliced(old(self)@, 15, value@),
    {
        write_bytes(&mut self.bytes, 15, value)
    }

    /// Ingest any byte slice: short input is zero-padded, long input
    /// truncated.
    pub fn from_slice(raw: &[u8]) -> (r: Self)
        ensures
            r.wf(),
            r@ == padded(raw@, 18),
    {
        Self { bytes: pad_bytes(raw, 18) }
    }

    /// The full key buffer, borrowed.
    pub fn as_bytes(&self) -> (r: &[u8])
        ensures
            r@ == self@,
    {
        self.bytes.as_slice()
    }

    /// The full key buffer, owned.
    pub fn to_vec(&self) -> (r: Vec<u8>)
        ensures
            r@ == self@,
    {
        vstd::slice::slice_to_vec(self.bytes.as_slice())
    }

    /// The raw key bytes in the compact diagnostic format.
    pub fn raw_debug(&self) -> (r: String)
        requires
            self.wf(),
        ensures
            r@ == compact_render(self@, standard_sizes()),
    {
        let sizes = standard_sizes_exec();
        proof {
            lemma_standard_sizes_sum();
        }
        render_compact(self.bytes.as_slice(), &sizes)
    }
}

impl Default for NoMinMaxKey {
    /// Every field at its configured default.
    fn default() -> (r: NoMinMaxKey)
        ensures
            r.wf(),
            r@ == standard_layout(0u64, 0u16, 0u8, 0u32, seq![0x12u8, 0x34u8, 0x7Fu8]),
    {
        NoMinMaxKey { bytes: standard_build(0u64, 0u16, 0u8, 0u32, [0x12u8, 0x34u8, 0x7Fu8].as_slice()) }
    }
}

/// Argument structure used to create [`NoMinMaxKey`] values, with the
/// configured per-field defaults.
#[derive(Copy, Clone, Debug, PartialEq, Eq)]
pub struct NoMinMaxKeyArgs {
    pub id: u64,
    pub word: u16,
    pub byte: u8,
    pub long: u32,
    pub end: [u8; 3],
}

impl Default for NoMinMaxKeyArgs {
    /// Every argument at its field's configured default.
    fn default() -> (r: NoMinMaxKeyArgs)
        ensures
            r.id == 0u64,
            r.word == 0u16,
            r.byte == 0u8,
            r.long == 0u32,
            r.end@ == seq![0x12u8, 0x34u8, 0x7Fu8],
    {
        let r = NoMinMaxKeyArgs {
            id: 0u64,
            word: 0u16,
            byte: 0u8,
            long: 0u32,
            end: [0x12u8, 0x34u8, 0x7Fu8],
        };
        proof {
            assert(r.end@ =~= seq![0x12u8, 0x34u8, 0x7Fu8]);
        }
        r
    }
}

/// A sample key that exposes only its whole-key maximum.
#[derive(Clone, Debug, PartialEq, Eq, Hash)]
pub struct NoMinKey {
    bytes: Vec<u8>,
}

impl View for NoMinKey {
    type V = Seq<u8>;

    closed spec fn view(&self) -> Seq<u8> {
        self.bytes@
    }
}

impl NoMinKey {
    /// The size in bytes of the key data.
    pub const KEY_LENGTH: usize = 18;

    /// A buffer of exactly the key's width.
    pub open spec fn wf(self) -> bool {
        self@.len() == 18
    }

    /// Pack one value per field into a fresh key.
    pub fn new(id: u64, word: u16, byte: u8, long: u32, end: [u8; 3]) -> (r: Self)
        ensures
            r.wf(),
            r@ == standard_layout(id, word, byte, long, end@),
    {
        Self { bytes: standard_build(id, word, byte, long, end.as_slice()) }
    }

    /// Build a key from an argument structure, typically one where
    /// omitted fields were left at their defaults.
    pub fn from_args(args: NoMinKeyArgs) -> (r: Self)
        ensures
            r.wf(),
            r@ == standard_layout(args.id, args.word, args.byte, args.long, args.end@),
    {
        Self { bytes: standard_build(args.id, args.word, args.byte, args.long, args.end.as_slice()) }
    }

    /// Get the id value from the key.
    pub fn id(&self) -> (r: u64)
        requires
            self.wf(),
        ensures
            r as nat == be_val(self@.subrange(0, 8)),
    {
        read_u64(&self.bytes, 0)
    }

    /// Set the id value in the key, touching no other byte.
    pub fn set_id(&mut self, value: u64)
        requires
            old(self).wf(),
        ensures
            final(self).wf(),
            final(self)@ == spliced(old(self)@, 0, be_seq(value as nat, 8)),
    {
        proof {
            crate::bytes::lemma_be_seq_len(value as nat, 8);
        }
        write_u64(&mut self.bytes, 0, value)
    }

    /// Get the word value from the key.
    pub fn word(&self) -> (r: u16)
        requires
            self.wf(),
        ensures
            r as nat == be_val(self@.subrange(8, 10)),
    {
        read_u16(&self.bytes, 8)
    }

    /// Set the word value in the key, touching no other byte.
    pub fn set_word(&mut self, value: u16)
        requires
            old(self).wf(),
        ensures
            final(self).wf(),
            final(self)@ == spliced(old(self)@, 8, be_seq(value as nat, 2)),
    {
        proof {
            crate::bytes::lemma_be_seq_len(value as nat, 2);
        }
        write_u16(&mut self.bytes, 8, value)
    }

    /// Get the byte value from the key.
    pub fn byte(&self) -> (r: u8)
        requires
            self.wf(),
        ensures
            r as nat == be_val(self@.subrange(10, 11)),
    {
        read_u8(&self.bytes, 10)
    }

    /// Set the byte value in the key, touching no other byte.
    pub fn set_byte(&mut self, value: u8)
        requires
            old(self).wf(),
        ensures
            final(self).wf(),
            final(self)@ == spliced(old(self)@, 10, be_seq(value as nat, 1)),
    {
        proof {
            crate::bytes::lemma_be_seq_len(value as nat, 1);
        }
        write_u8(&mut self.bytes, 10, value)
    }

    /// Get the long value from the key.
    pub fn long(&self) -> (r: u32)
        requires
            self.wf(),
        ensures
            r as nat == be_val(self@.subrange(11, 15)),
    {
        read_u32(&self.bytes, 11)
    }

    /// Set the long value in the key, touching no other byte.
    pub fn set_long(&mut self, value: u32)
        requires
            old(self).wf(),
        ensures
            final(self).wf(),
            final(self)@ == spliced(old(self)@, 11, be_seq(value as nat, 4)),
    {
        proof {
            crate::bytes::lemma_be_seq_len(value as nat, 4);
        }
        write_u32(&mut self.bytes, 11, value)
    }

    /// Borrow the end bytes of the key.
    pub fn end(&self) -> (r: &[u8])
        requires
            self.wf(),
        ensures
            r@ == self@.subrange(15, 18),
    {
        vstd::slice::slice_subrange(self.bytes.as_slice(), 15, 18)
    }

    /// Set the end bytes in the key, touching no other byte.
    pub fn set_end(&mut self, value: &[u8])
        requires
            old(self).wf(),
            value@.len() == 3,
        ensures
            final(self).wf(),
            final(self)@ == spliced(old(self)@, 15, value@),
    {
        write_bytes(&mut self.bytes, 15, value)
    }

    /// Ingest any byte slice: short input is zero-padded, long input
    /// truncated.
    pub fn from_slice(raw: &[u8]) -> (r: Self)
        ensures
            r.wf(),
            r@ == padded(raw@, 18),
    {
        Self { bytes: pad_bytes(raw, 18) }
    }

    /// The full key buffer, borrowed.
    pub fn as_bytes(&self) -> (r: &[u8])
        ensures
            r@ == self@,
    {
        self.bytes.as_slice()
    }

    /// The full key buffer, owned.
    pub fn to_vec(&self) -> (r: Vec<u8>)
        ensures
            r@ == self@,
    {
        vstd::slice::slice_to_vec(self.bytes.as_slice())
    }

    /// The largest encodable key: no field narrows its bounds, so
    /// this is the all-`0xFF` buffer.
    pub fn max_key() -> (r: Self)
        ensures
            r.wf(),
            r@ == Seq::new(18, |i: int| 0xFFu8),
    {
        let r = Self { bytes: vec![0xFFu8; 18] };
        proof {
            assert(r@ =~= Seq::new(18, |i: int| 0xFFu8));
        }
        r
    }

    /// The raw key bytes in the compact diagnostic format.
    pub fn raw_debug(&self) -> (r: String)
        requires
            self.wf(),
        ensures
            r@ == compact_render(self@, standard_sizes()),
    {
        let sizes = standard_sizes_exec();
        proof {
            lemma_standard_sizes_sum();
        }
        render_compact(self.bytes.as_slice(), &sizes)
    }
}

impl Default for NoMinKey {
    /// Every field at its configured default.
    fn default() -> (r: NoMinKey)
        ensures
            r.wf(),
            r@ == standard_layout(0u64, 0u16, 0u8, 0u32, seq![0x12u8, 0x34u8, 0x7Fu8]),
    {
        NoMinKey { bytes: standard_build(0u64, 0u16, 0u8, 0u32, [0x12u8, 0x34u8, 0x7Fu8].as_slice()) }
    }
}

/// Argument structure used to create [`NoMinKey`] values, with the
/// configured per-field defaults.
#[derive(Copy, Clone, Debug, PartialEq, Eq)]
pub struct NoMinKeyArgs {
    pub id: u64,
    pub word: u16,
    pub byte: u8,
    pub long: u32,
    pub end: [u8; 3],
}

impl Default for NoMinKeyArgs {
    /// Every argument at its field's configured default.
    fn default() -> (r: NoMinKeyArgs)
        ensures
            r.id == 0u64,
            r.word == 0u16,
            r.byte == 0u8,
            r.long == 0u32,
            r.end@ == seq![0x12u8, 0x34u8, 0x7Fu8],
    {
        let r = NoMinKeyArgs {
            id: 0u64,
            word: 0u16,
            byte: 0u8,
            long: 0u32,
            end: [0x12u8, 0x34u8, 0x7Fu8],
        };
        proof {
            assert(r.end@ =~= seq![0x12u8, 0x34u8, 0x7Fu8]);
        }
        r
    }
}

/// A sample key that exposes only its whole-key minimum.
#[derive(Clone, Debug, PartialEq, Eq, Hash)]
pub struct NoMaxKey {
    bytes: Vec<u8>,
}

impl View for NoMaxKey {
    type V = Seq<u8>;

    closed spec fn view(&self) -> Seq<u8> {
        self.bytes@
    }
}

impl NoMaxKey {
    /// The size in bytes of the key data.
    pub const KEY_LENGTH: usize = 18;

    /// A buffer of exactly the key's width.
    pub open spec fn wf(self) -> bool {
        self@.len() == 18
    }

    /// Pack one value per field into a fresh key.
    pub fn new(id: u64, word: u16, byte: u8, long: u32, end: [u8; 3]) -> (r: Self)
        ensures
            r.wf(),
            r@ == standard_layout(id, word, byte, long, end@),
    {
        Self { bytes: standard_build(id, word, byte, long, end.as_slice()) }
    }

    /// Build a key from an argument structure, typically one where
    /// omitted fields were left at their defaults.
    pub fn from_args(args: NoMaxKeyArgs) -> (r: Self)
        ensures
            r.wf(),
            r@ == standard_layout(args.id, args.word, args.byte, args.long, args.end@),
    {
        Self { bytes: standard_build(args.id, args.word, args.byte, args.long, args.end.as_slice()) }
    }

    /// Get the id value from the key.
    pub fn id(&self) -> (r: u64)
        requires
            self.wf(),
        ensures
            r as nat == be_val(self@.subrange(0, 8)),
    {
        read_u64(&self.bytes, 0)
    }

    /// Set the id value in the key, touching no other byte.
    pub fn set_id(&mut self, value: u64)
        requires
            old(self).wf(),
        ensures
            final(self).wf(),
            final(self)@ == spliced(old(self)@, 0, be_seq(value as nat, 8)),
    {
        proof {
            crate::bytes::lemma_be_seq_len(value as nat, 8);
        }
        write_u64(&mut self.bytes, 0, value)
    }

    /// Get the word value from the key.
    pub fn word(&self) -> (r: u16)
        requires
            self.wf(),
        ensures
            r as nat == be_val(self@.subrange(8, 10)),
    {
        read_u16(&self.bytes, 8)
    }

    /// Set the word value in the key, touching no other byte.
    pub fn set_word(&mut self, value: u16)
        requires
            old(self).wf(),
        ensures
            final(self).wf(),
            final(self)@ == spliced(old(self)@, 8, be_seq(value as nat, 2)),
    {
        proof {
            crate::bytes::lemma_be_seq_len(value as nat, 2);
        }
        write_u16(&mut self.bytes, 8, value)
    }

    /// Get the byte value from the key.
    pub fn byte(&self) -> (r: u8)
        requires
            self.wf(),
        ensures
            r as nat == be_val(self@.subrange(10, 11)),
    {
        read_u8(&self.bytes, 10)
    }

    /// Set the byte value in the key, touching no other byte.
    pub fn set_byte(&mut self, value: u8)
        requires
            old(self).wf(),
        ensures
            final(self).wf(),
            final(self)@ == spliced(old(self)@, 10, be_seq(value as nat, 1)),
    {
        proof {
            crate::bytes::lemma_be_seq_len(value as nat, 1);
        }
        write_u8(&mut self.bytes, 10, value)
    }

    /// Get the long value from the key.
    pub fn long(&self) -> (r: u32)
        requires
            self.wf(),
        ensures
            r as nat == be_val(self@.subrange(11, 15)),
    {
        read_u32(&self.bytes, 11)
    }

    /// Set the long value in the key, touching no other byte.
    pub fn set_long(&mut self, value: u32)
        requires
            old(self).wf(),
        ensures
            final(self).wf(),
            final(self)@ == spliced(old(self)@, 11, be_seq(value as nat, 4)),
    {
        proof {
            crate::bytes::lemma_be_seq_len(value as nat, 4);
        }
        write_u32(&mut self.bytes, 11, value)
    }

    /// Borrow the end bytes of the key.
    pub fn end(&self) -> (r: &[u8])
        requires
            self.wf(),
        ensures
            r@ == self@.subrange(15, 18),
    {
        vstd::slice::slice_subrange(self.bytes.as_slice(), 15, 18)
    }

    /// Set the end bytes in the key, touching no other byte.
    pub fn set_end(&mut self, value: &[u8])
        requires
            old(self).wf(),
            value@.len() == 3,
        ensures
            final(self).wf(),
            final(self)@ == spliced(old(self)@, 15, value@),
    {
        write_bytes(&mut self.bytes, 15, value)
    }

    /// Ingest any byte slice: short input is zero-padded, long input
    /// truncated.
    pub fn from_slice(raw: &[u8]) -> (r: Self)
        ensures
            r.wf(),
            r@ == padded(raw@, 18),
    {
        Self { bytes: pad_bytes(raw, 18) }
    }

    /// The full key buffer, borrowed.
    pub fn as_bytes(&self) -> (r: &[u8])
        ensures
            r@ == self@,
    {
        self.bytes.as_slice()
    }

    /// The full key buffer, owned.
    pub fn to_vec(&self) -> (r: Vec<u8>)
        ensures
            r@ == self@,
    {
        vstd::slice::slice_to_vec(self.bytes.as_slice())
    }

    /// The smallest encodable key: no field narrows its bounds, so
    /// this is the all-zero buffer.
    pub fn min_key() -> (r: Self)
        ensures
            r.wf(),
            r@ == Seq::new(18, |i: int| 0u8),
    {
        let r = Self { bytes: vec![0u8; 18] };
        proof {
            assert(r@ =~= Seq::new(18, |i: int| 0u8));
        }
        r
    }

    /// The raw key bytes in the compact diagnostic format.
    pub fn raw_debug(&self) -> (r: String)
        requires
            self.wf(),
        ensures
            r@ == compact_render(self@, standard_sizes()),
    {
        let sizes = standard_sizes_exec();
        proof {
            lemma_standard_sizes_sum();
        }
        render_compact(self.bytes.as_slice(), &sizes)
    }
}

impl Default for NoMaxKey {
    /// Every field at its configured default.
    fn default() -> (r: NoMaxKey)
        ensures
            r.wf(),
            r@ == standard_layout(0u64, 0u16, 0u8, 0u32, seq![0x12u8, 0x34u8, 0x7Fu8]),
    {
        NoMaxKey { bytes: standard_build(0u64, 0u16, 0u8, 0u32, [0x12u8, 0x34u8, 0x7Fu8].as_slice()) }
    }
}

/// Argument structure used to create [`NoMaxKey`] values, with the
/// configured per-field defaults.
#[derive(Copy, Clone, Debug, PartialEq, Eq)]
pub struct NoMaxKeyArgs {
    pub id: u64,
    pub word: u16,
    pub byte: u8,
    pub long: u32,
    pub end: [u8; 3],
}

impl Default for NoMaxKeyArgs {
    /// Every argument at its field's configured default.
    fn default() -> (r: NoMaxKeyArgs)
        ensures
            r.id == 0u64,
            r.word == 0u16,
            r.byte == 0u8,
            r.long == 0u32,
            r.end@ == seq![0x12u8, 0x34u8, 0x7Fu8],
    {
        let r = NoMaxKeyArgs {
            id: 0u64,
            word: 0u16,
            byte: 0u8,
            long: 0u32,
            end: [0x12u8, 0x34u8, 0x7Fu8],
        };
        proof {
            assert(r.end@ =~= seq![0x12u8, 0x34u8, 0x7Fu8]);
        }
        r
    }
}

} // verus!
