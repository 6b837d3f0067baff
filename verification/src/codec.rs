//! Reading and writing single fields at fixed offsets.
//!
//! These are the per-width transforms of the codec, specialised to the
//! native integer types: unsigned values go down in big-endian order
//! verbatim, signed values biased so that byte order matches numeric
//! order, arrays byte for byte.  A writer overwrites exactly its own
//! byte range; a reader decodes exactly its own byte range.  Concrete
//! key types are built from these.

use vstd::prelude::*;
use crate::bytes::{
    be_seq, be_val, be_encode, be_decode, lemma_be_val_bound, lemma_pow256_values,
};
use crate::kind::FieldSize;
use crate::key::spliced;
use crate::value::FieldValue;

verus! {

/// Overwrite the range of `buf` starting at `off` with `src`.
pub fn write_bytes(buf: &mut Vec<u8>, off: usize, src: &[u8])
    requires
        off + src@.len() <= old(buf)@.len(),
    ensures
        final(buf)@ == spliced(old(buf)@, off as int, src@),
{
    let total = buf.len();
    let w = src.len();
    let mut j: usize = 0;
    while j < w
        invariant
            j <= w,
            off + w <= total,
            total == buf@.len(),
            w == src@.len(),
            forall|k: int| off <= k < off + j ==> buf@[k] == src@[k - off],
            forall|k: int| 0 <= k < total && !(off <= k < off + j) ==> buf@[k] == old(buf)@[k],
        decreases w - j,
    {
        buf[off + j] = src[j];
        j = j + 1;
    }
    proof {
        assert(buf@ =~= spliced(old(buf)@, off as int, src@));
    }
}

/// Read the range of `buf` starting at `off`, `w` bytes wide.
pub fn read_bytes(buf: &Vec<u8>, off: usize, w: usize) -> (r: Vec<u8>)
    requires
        off + w <= buf@.len(),
    ensures
        r@ == buf@.subrange(off as int, off + w),
{
    let total = buf.len();
    let mut out: Vec<u8> = Vec::new();
    let mut j: usize = 0;
    proof {
        assert(out@ =~= buf@.subrange(off as int, off as int));
    }
    while j < w
        invariant
            j <= w,
            off + w <= total,
            total == buf@.len(),
            out@ == buf@.subrange(off as int, off + j),
        decreases w - j,
    {
        let b = buf[off + j];
        out.push(b);
        proof {
            assert(buf@.subrange(off as int, off + j + 1) =~= buf@.subrange(
                off as int,
                off + j,
            ).push(b));
        }
        j = j + 1;
    }
    out
}

/// Append `src` to the end of `buf`.
pub fn append_bytes(buf: &mut Vec<u8>, src: &[u8])
    ensures
        final(buf)@ == old(buf)@ + src@,
{
    buf.extend_from_slice(src);
    proof {
        assert(buf@ =~= old(buf)@ + src@);
    }
}

/// A byte slice brought to a fixed width: truncated if longer, padded
/// with trailing zero bytes if shorter.
pub fn pad_bytes(raw: &[u8], total: usize) -> (r: Vec<u8>)
    ensures
        r@ == crate::key::padded(raw@, total as nat),
{
    let m = raw.len();
    let count = if m < total {
        m
    } else {
        total
    };
    let mut buf: Vec<u8> = vec![0u8; total];
    let mut i: usize = 0;
    while i < count
        invariant
            i <= count,
            count <= total,
            count <= raw@.len(),
            buf@.len() == total,
            forall|k: int| 0 <= k < i ==> buf@[k] == raw@[k],
            forall|k: int| i <= k < total ==> buf@[k] == 0u8,
        decreases count - i,
    {
        buf[i] = raw[i];
        i = i + 1;
    }
    proof {
        assert(buf@ =~= crate::key::padded(raw@, total as nat));
    }
    buf
}

/// Write an unsigned 8-bit field.
pub fn write_u8(buf: &mut Vec<u8>, off: usize, v: u8)
    requires
        off + 1 <= old(buf)@.len(),
    ensures
        final(buf)@ == spliced(old(buf)@, off as int, be_seq(v as nat, 1)),
{
    proof {
        lemma_pow256_values();
        crate::bytes::lemma_be_seq_len(v as nat, 1);
    }
    let b = be_encode(v as u128, 1);
    write_bytes(buf, off, b.as_slice());
}

/// Write an unsigned 16-bit field.
pub fn write_u16(buf: &mut Vec<u8>, off: usize, v: u16)
    requires
        off + 2 <= old(buf)@.len(),
    ensures
        final(buf)@ == spliced(old(buf)@, off as int, be_seq(v as nat, 2)),
{
    proof {
        lemma_pow256_values();
        crate::bytes::lemma_be_seq_len(v as nat, 2);
    }
    let b = be_encode(v as u128, 2);
    write_bytes(buf, off, b.as_slice());
}

/// Write an unsigned 32-bit field.
pub fn write_u32(buf: &mut Vec<u8>, off: usize, v: u32)
    requires
        off + 4 <= old(buf)@.len(),
    ensures
        final(buf)@ == spliced(old(buf)@, off as int, be_seq(v as nat, 4)),
{
    proof {
        lemma_pow256_values();
        crate::bytes::lemma_be_seq_len(v as nat, 4);
    }
    let b = be_encode(v as u128, 4);
    write_bytes(buf, off, b.as_slice());
}

/// Write an unsigned 64-bit field.
pub fn write_u64(buf: &mut Vec<u8>, off: usize, v: u64)
    requires
        off + 8 <= old(buf)@.len(),
    ensures
        final(buf)@ == spliced(old(buf)@, off as int, be_seq(v as nat, 8)),
{
    proof {
        lemma_pow256_values();
        crate::bytes::lemma_be_seq_len(v as nat, 8);
    }
    let b = be_encode(v as u128, 8);
    write_bytes(buf, off, b.as_slice());
}

/// Write an unsigned 128-bit field.
pub fn write_u128(buf: &mut Vec<u8>, off: usize, v: u128)
    requires
        off + 16 <= old(buf)@.len(),
    ensures
        final(buf)@ == spliced(old(buf)@, off as int, be_seq(v as nat, 16)),
{
    proof {
        lemma_pow256_values();
        crate::bytes::lemma_be_seq_len(v as nat, 16);
    }
    let b = be_encode(v, 16);
    write_bytes(buf, off, b.as_slice());
}

/// Write a signed 8-bit field in its biased stored form.
pub fn write_i8(buf: &mut Vec<u8>, off: usize, v: i8)
    requires
        off + 1 <= old(buf)@.len(),
    ensures
        final(buf)@ == spliced(
            old(buf)@,
            off as int,
            FieldSize::Signed8.encode_int(v as int),
        ),
{
    let fv = FieldValue::from_i8(v);
    write_bytes(buf, off, fv.raw_bytes().as_slice());
}

/// Write a signed 16-bit field in its biased stored form.
pub fn write_i16(buf: &mut Vec<u8>, off: usize, v: i16)
    requires
        off + 2 <= old(buf)@.len(),
    ensures
        final(buf)@ == spliced(
            old(buf)@,
            off as int,
            FieldSize::Signed16.encode_int(v as int),
        ),
{
    let fv = FieldValue::from_i16(v);
    write_bytes(buf, off, fv.raw_bytes().as_slice());
}

/// Write a signed 32-bit field in its biased stored form.
pub fn write_i32(buf: &mut Vec<u8>, off: usize, v: i32)
    requires
        off + 4 <= old(buf)@.len(),
    ensures
        final(buf)@ == spliced(
            old(buf)@,
            off as int,
            FieldSize::Signed32.encode_int(v as int),
        ),
{
    let fv = FieldValue::from_i32(v);
    write_bytes(buf, off, fv.raw_bytes().as_slice());
}

/// Write a signed 64-bit field in its biased stored form.
pub fn write_i64(buf: &mut Vec<u8>, off: usize, v: i64)
    requires
        off + 8 <= old(buf)@.len(),
    ensures
        final(buf)@ == spliced(
            old(buf)@,
            off as int,
            FieldSize::Signed64.encode_int(v as int),
        ),
{
    let fv = FieldValue::from_i64(v);
    write_bytes(buf, off, fv.raw_bytes().as_slice());
}

/// Write a signed 128-bit field in its biased stored form.
pub fn write_i128(buf: &mut Vec<u8>, off: usize, v: i128)
    requires
        off + 16 <= old(buf)@.len(),
    ensures
        final(buf)@ == spliced(
            old(buf)@,
            off as int,
            FieldSize::Signed128.encode_int(v as int),
        ),
{
    let fv = FieldValue::from_i128(v);
    write_bytes(buf, off, fv.raw_bytes().as_slice());
}

/// Read an unsigned 8-bit field.
pub fn read_u8(buf: &Vec<u8>, off: usize) -> (r: u8)
    requires
        off + 1 <= buf@.len(),
    ensures
        r as nat == be_val(buf@.subrange(off as int, off + 1)),
{
    proof {
        lemma_be_val_bound(buf@.subrange(off as int, off + 1));
        lemma_pow256_values();
    }
    be_decode(buf, off, 1) as u8
}

/// Read an unsigned 16-bit field.
pub fn read_u16(buf: &Vec<u8>, off: usize) -> (r: u16)
    requires
        off + 2 <= buf@.len(),
    ensures
        r as nat == be_val(buf@.subrange(off as int, off + 2)),
{
    proof {
        lemma_be_val_bound(buf@.subrange(off as int, off + 2));
        lemma_pow256_values();
    }
    be_decode(buf, off, 2) as u16
}

/// Read an unsigned 32-bit field.
pub fn read_u32(buf: &Vec<u8>, off: usize) -> (r: u32)
    requires
        off + 4 <= buf@.len(),
    ensures
        r as nat == be_val(buf@.subrange(off as int, off + 4)),
{
    proof {
        lemma_be_val_bound(buf@.subrange(off as int, off + 4));
        lemma_pow256_values();
    }
    be_decode(buf, off, 4) as u32
}

/// Read an unsigned 64-bit field.
pub fn read_u64(buf: &Vec<u8>, off: usize) -> (r: u64)
    requires
        off + 8 <= buf@.len(),
    ensures
        r as nat == be_val(buf@.subrange(off as int, off + 8)),
{
    proof {
        lemma_be_val_bound(buf@.subrange(off as int, off + 8));
        lemma_pow256_values();
    }
    be_decode(buf, off, 8) as u64
}

/// Read an unsigned 128-bit field.
pub fn read_u128(buf: &Vec<u8>, off: usize) -> (r: u128)
    requires
        off + 16 <= buf@.len(),
    ensures
        r as nat == be_val(buf@.subrange(off as int, off + 16)),
{
    be_decode(buf, off, 16)
}

/// Read a signed 8-bit field back to its native value.
pub fn read_i8(buf: &Vec<u8>, off: usize) -> (r: i8)
    requires
        off + 1 <= buf@.len(),
    ensures
        r as int == FieldSize::Signed8.decode_int(buf@.subrange(off as int, off + 1)),
{
    proof {
        lemma_be_val_bound(buf@.subrange(off as int, off + 1));
        lemma_pow256_values();
    }
    let u = be_decode(buf, off, 1);
    ((u as i128) - 0x80) as i8
}

/// Read a signed 16-bit field back to its native value.
pub fn read_i16(buf: &Vec<u8>, off: usize) -> (r: i16)
    requires
        off + 2 <= buf@.len(),
    ensures
        r as int == FieldSize::Signed16.decode_int(buf@.subrange(off as int, off + 2)),
{
    proof {
        lemma_be_val_bound(buf@.subrange(off as int, off + 2));
        lemma_pow256_values();
    }
    let u = be_decode(buf, off, 2);
    ((u as i128) - 0x8000) as i16
}

/// Read a signed 32-bit field back to its native value.
pub fn read_i32(buf: &Vec<u8>, off: usize) -> (r: i32)
    requires
        off + 4 <= buf@.len(),
    ensures
        r as int == FieldSize::Signed32.decode_int(buf@.subrange(off as int, off + 4)),
{
    proof {
        lemma_be_val_bound(buf@.subrange(off as int, off + 4));
        lemma_pow256_values();
    }
    let u = be_decode(buf, off, 4);
    ((u as i128) - 0x80000000) as i32
}

/// Read a signed 64-bit field back to its native value.
pub fn read_i64(buf: &Vec<u8>, off: usize) -> (r: i64)
    requires
        off + 8 <= buf@.len(),
    ensures
        r as int == FieldSize::Signed64.decode_int(buf@.subrange(off as int, off + 8)),
{
    proof {
        lemma_be_val_bound(buf@.subrange(off as int, off + 8));
        lemma_pow256_values();
    }
    let u = be_decode(buf, off, 8);
    ((u as i128) - 0x8000000000000000) as i64
}

/// Read a signed 128-bit field back to its native value.
pub fn read_i128(buf: &Vec<u8>, off: usize) -> (r: i128)
    requires
        off + 16 <= buf@.len(),
    ensures
        r as int == FieldSize::Signed128.decode_int(buf@.subrange(off as int, off + 16)),
{
    proof {
        lemma_be_val_bound(buf@.subrange(off as int, off + 16));
        lemma_pow256_values();
    }
    let u = be_decode(buf, off, 16);
    if u >= 0x80000000000000000000000000000000 {
        (u - 0x80000000000000000000000000000000) as i128
    } else {
        -((0x7FFFFFFFFFFFFFFFFFFFFFFFFFFFFFFF - u) as i128) - 1
    }
}

} // verus!
