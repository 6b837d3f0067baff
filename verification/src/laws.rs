//! Whole-key guarantees of the codec, proved once about the
//! specification functions the operations are contracted against.

use vstd::prelude::*;
use crate::value::FieldValue;
use crate::descriptor::{KeyDescriptor, lemma_field_in_total};
use crate::kind::lemma_extreme_bytes;
use crate::key::{key_bytes, values_match, defaults_of, minima_of, maxima_of, padded, spliced,
    lemma_key_bytes_total, lemma_key_bytes_split, lemma_key_bytes_skip, lemma_key_bytes_fields,
    lemma_key_bytes_congruent, lemma_key_bytes_constant};

verus! {

/// Setting one field splices exactly its own byte range: the field reads
/// back as the bytes written, every byte outside the range is untouched,
/// and the buffer keeps its width.  Together with the contracts of `set`
/// and `get` this makes a setter followed by the getter return the value
/// set, whatever the buffer held before.
pub proof fn lemma_set_then_get(d: KeyDescriptor, buf: Seq<u8>, i: int, b: Seq<u8>)
    requires
        d.wf(),
        buf.len() == d.total(),
        0 <= i < d.fields().len(),
        b.len() == d.fields()[i].width(),
    ensures
        spliced(buf, d.fields()[i].offset as int, b).len() == buf.len(),
        spliced(buf, d.fields()[i].offset as int, b).subrange(
            d.fields()[i].offset as int,
            d.fields()[i].end(),
        ) == b,
        forall|p: int|
            0 <= p < buf.len() && !(d.fields()[i].offset <= p < d.fields()[i].end())
                ==> spliced(buf, d.fields()[i].offset as int, b)[p] == buf[p],
{
    lemma_field_in_total(d, i);
    let off = d.fields()[i].offset as int;
    let s = spliced(buf, off, b);
    assert(s.len() == buf.len());
    assert(s.subrange(off, d.fields()[i].end()) =~= b);
}

/// Default composition: a key built with only field `k` supplied and
/// every other field at its configured default is the all-defaults key
/// with field `k`'s byte range overwritten.
pub proof fn lemma_default_composition(d: KeyDescriptor, vals: Seq<FieldValue>, k: int)
    requires
        d.wf(),
        values_match(d, vals),
        0 <= k < d.fields().len(),
        forall|i: int|
            0 <= i < vals.len() && i != k ==> (#[trigger] vals[i]).bytes()
                == d.fields()[i].default.bytes(),
    ensures
        key_bytes(vals) == spliced(
            key_bytes(defaults_of(d)),
            d.fields()[k].offset as int,
            vals[k].bytes(),
        ),
{
    let defaults = defaults_of(d);
    assert(values_match(d, defaults));
    lemma_field_in_total(d, k);
    let off = d.fields()[k].offset as int;
    let w = d.fields()[k].width() as int;
    let dk = key_bytes(defaults);
    // Both sides split at field k: a common prefix, field k's bytes, a
    // common suffix.
    lemma_key_bytes_split(vals, k);
    lemma_key_bytes_skip(vals, k);
    lemma_key_bytes_split(defaults, k);
    lemma_key_bytes_skip(defaults, k);
    assert(vals.take(k).len() == k);
    lemma_key_bytes_fields(d, vals, k);
    lemma_key_bytes_fields(d, defaults, k);
    assert(key_bytes(vals.take(k)).len() == off);
    assert(key_bytes(defaults.take(k)).len() == off);
    assert(vals[k].bytes().len() == w);
    assert(defaults[k].bytes().len() == w);
    // The prefixes agree and the suffixes agree, field for field.
    assert(key_bytes(vals.take(k)) == key_bytes(defaults.take(k))) by {
        lemma_key_bytes_congruent(vals.take(k), defaults.take(k));
    }
    assert(key_bytes(vals.skip(k + 1)) == key_bytes(defaults.skip(k + 1))) by {
        lemma_key_bytes_congruent(vals.skip(k + 1), defaults.skip(k + 1));
    }
    // The splice carves the default buffer at exactly those seams.
    assert(dk.take(off) =~= key_bytes(defaults.take(k)));
    assert(dk.skip(off + w) =~= key_bytes(defaults.skip(k + 1)));
    assert(key_bytes(vals) =~= spliced(dk, off, vals[k].bytes()));
}

/// Raw-ingestion padding: a byte slice no longer than the key ingests
/// exactly as the same slice extended with trailing zero bytes to the
/// key's width.
pub proof fn lemma_padding(raw: Seq<u8>, total: nat)
    requires
        raw.len() <= total,
    ensures
        padded(raw, total) == padded(
            raw + Seq::new((total - raw.len()) as nat, |i: int| 0u8),
            total,
        ),
{
    assert(padded(raw, total) =~= padded(
        raw + Seq::new((total - raw.len()) as nat, |i: int| 0u8),
        total,
    ));
}

/// Whether every field of a key type keeps its kind's own bounds, with
/// no per-field minimum or maximum override narrowing them.
pub open spec fn uniform_bounds(d: KeyDescriptor) -> bool {
    forall|i: int|
        0 <= i < d.fields().len() ==> (#[trigger] d.fields()[i]).minimum.bytes()
            == d.fields()[i].kind.min_bytes() && d.fields()[i].maximum.bytes()
            == d.fields()[i].kind.max_bytes()
}

/// The uniform-bounds shortcut: when no field narrows its bounds, the
/// whole-key minimum is the all-zero buffer and the whole-key maximum
/// the all-`0xFF` buffer, so both can be had by a plain buffer fill with
/// no per-field walk.
pub proof fn lemma_uniform_bounds(d: KeyDescriptor)
    requires
        d.wf(),
        uniform_bounds(d),
    ensures
        key_bytes(minima_of(d)) == Seq::new(d.total(), |i: int| 0u8),
        key_bytes(maxima_of(d)) == Seq::new(d.total(), |i: int| 0xFFu8),
{
    let minima = minima_of(d);
    let maxima = maxima_of(d);
    assert(values_match(d, minima));
    assert(values_match(d, maxima));
    lemma_key_bytes_total(d, minima);
    lemma_key_bytes_total(d, maxima);
    assert forall|i: int, j: int|
        0 <= i < minima.len() && 0 <= j < minima[i].bytes().len() implies (
    #[trigger] minima[i].bytes()[j]) == 0u8 by {
        lemma_extreme_bytes(d.fields()[i].kind);
    }
    assert forall|i: int, j: int|
        0 <= i < maxima.len() && 0 <= j < maxima[i].bytes().len() implies (
    #[trigger] maxima[i].bytes()[j]) == 0xFFu8 by {
        lemma_extreme_bytes(d.fields()[i].kind);
    }
    lemma_key_bytes_constant(minima, 0u8);
    lemma_key_bytes_constant(maxima, 0xFFu8);
    assert(key_bytes(minima) =~= Seq::new(d.total(), |i: int| 0u8));
    assert(key_bytes(maxima) =~= Seq::new(d.total(), |i: int| 0xFFu8));
}

} // verus!
