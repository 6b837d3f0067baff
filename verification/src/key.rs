//! The encoded key buffer and the table-driven codec.
//!
//! An `EncodedKey` is the fixed-width byte buffer of one key value.  All
//! operations read the key type's `KeyDescriptor`: encoding lays one
//! stored value per field down at its offset, decoding reads a field's
//! byte range back, setters overwrite exactly their own range, and raw
//! ingestion pads or truncates a byte slice to the key's width.  Byte-wise
//! lexicographic comparison of two buffers of one key type agrees with
//! field-by-field comparison of the decoded values; the proof lives in
//! the `order` module.

use vstd::prelude::*;
use crate::kind::FieldSize;
use crate::value::{FieldValue, FieldValueError};
use crate::descriptor::KeyDescriptor;

verus! {

/// The error an encode call is rejected with: the wrong number of values,
/// or a value of the wrong kind for its field.
#[derive(Copy, Clone, Debug, PartialEq, Eq, Structural)]
pub enum KeyError {
    WrongCount { expected: usize, actual: usize },
    Value { field: usize, error: FieldValueError },
}

/// The error for a value that does not fit a field: arrays of the wrong
/// length are a size mismatch, everything else a kind mismatch.
pub open spec fn mismatch_error(expected: FieldSize, actual: FieldSize) -> FieldValueError {
    match (expected, actual) {
        (FieldSize::Array(n), FieldSize::Array(m)) => FieldValueError::WrongSize {
            expected: n,
            actual: m,
        },
        _ => FieldValueError::WrongKind { expected, actual },
    }
}

/// One well-formed stored value per field, each of its field's kind.
pub open spec fn values_match(d: KeyDescriptor, vals: Seq<FieldValue>) -> bool {
    &&& vals.len() == d.fields().len()
    &&& forall|i: int|
        0 <= i < vals.len() ==> (#[trigger] vals[i]).wf() && vals[i].kind() == d.fields()[i].kind
}

/// The buffer assembled from one stored value per field, in order.
pub open spec fn key_bytes(vals: Seq<FieldValue>) -> Seq<u8>
    decreases vals.len(),
{
    if vals.len() == 0 {
        Seq::empty()
    } else {
        key_bytes(vals.drop_last()) + vals.last().bytes()
    }
}

/// The per-field default values of a key type.
pub open spec fn defaults_of(d: KeyDescriptor) -> Seq<FieldValue> {
    Seq::new(d.fields().len(), |i: int| d.fields()[i].default)
}

/// The per-field minimum values of a key type.
pub open spec fn minima_of(d: KeyDescriptor) -> Seq<FieldValue> {
    Seq::new(d.fields().len(), |i: int| d.fields()[i].minimum)
}

/// The per-field maximum values of a key type.
pub open spec fn maxima_of(d: KeyDescriptor) -> Seq<FieldValue> {
    Seq::new(d.fields().len(), |i: int| d.fields()[i].maximum)
}

/// A byte slice brought to a fixed width: truncated if longer, padded
/// with trailing zeros if shorter.
pub open spec fn padded(raw: Seq<u8>, total: nat) -> Seq<u8> {
    Seq::new(
        total,
        |i: int|
            if i < raw.len() {
                raw[i]
            } else {
                0u8
            },
    )
}

/// `buf` with the range starting at `off` overwritten by `b`.
pub open spec fn spliced(buf: Seq<u8>, off: int, b: Seq<u8>) -> Seq<u8> {
    buf.take(off) + b + buf.skip(off + b.len())
}

/// Appending one more value appends its bytes.
pub proof fn lemma_key_bytes_push(vals: Seq<FieldValue>, v: FieldValue)
    ensures
        key_bytes(vals.push(v)) == key_bytes(vals) + v.bytes(),
{
    assert(vals.push(v).drop_last() =~= vals);
    assert(vals.push(v).last() == v);
}

/// The assembled buffer, read from the front: the first remaining
/// value's bytes, then the rest.
pub proof fn lemma_key_bytes_skip(vals: Seq<FieldValue>, j: int)
    requires
        0 <= j < vals.len(),
    ensures
        key_bytes(vals.skip(j)) == vals[j].bytes() + key_bytes(vals.skip(j + 1)),
    decreases vals.len(),
{
    if j == vals.len() - 1 {
        assert(vals.skip(j).drop_last() =~= vals.skip(j + 1));
        assert(vals.skip(j + 1) =~= Seq::<FieldValue>::empty());
        assert(vals.skip(j).last() == vals[j]);
        assert(key_bytes(vals.skip(j)) =~= vals[j].bytes() + key_bytes(vals.skip(j + 1)));
    } else {
        lemma_key_bytes_skip(vals.drop_last(), j);
        assert(vals.skip(j).drop_last() =~= vals.drop_last().skip(j));
        assert(vals.skip(j + 1).drop_last() =~= vals.drop_last().skip(j + 1));
        assert(vals.skip(j).last() == vals.last());
        assert(vals.skip(j + 1).last() == vals.last());
        assert(vals.drop_last()[j] == vals[j]);
        assert(key_bytes(vals.skip(j)) == key_bytes(vals.drop_last().skip(j)) + vals.last().bytes());
        assert(key_bytes(vals.skip(j + 1)) == key_bytes(vals.drop_last().skip(j + 1))
            + vals.last().bytes());
        assert((vals[j].bytes() + key_bytes(vals.drop_last().skip(j + 1))) + vals.last().bytes()
            =~= vals[j].bytes() + (key_bytes(vals.drop_last().skip(j + 1)) + vals.last().bytes()));
    }
}

/// The assembled buffer splits at any field boundary.
pub proof fn lemma_key_bytes_split(vals: Seq<FieldValue>, j: int)
    requires
        0 <= j <= vals.len(),
    ensures
        key_bytes(vals) == key_bytes(vals.take(j)) + key_bytes(vals.skip(j)),
    decreases vals.len(),
{
    if j == vals.len() {
        assert(vals.take(j) =~= vals);
        assert(vals.skip(j) =~= Seq::<FieldValue>::empty());
        assert(key_bytes(vals) =~= key_bytes(vals.take(j)) + key_bytes(vals.skip(j)));
    } else {
        let dl = vals.drop_last();
        lemma_key_bytes_split(dl, j);
        assert(dl.take(j) =~= vals.take(j));
        assert(vals.skip(j) =~= dl.skip(j).push(vals.last()));
        lemma_key_bytes_push(dl.skip(j), vals.last());
        assert((key_bytes(vals.take(j)) + key_bytes(dl.skip(j))) + vals.last().bytes()
            =~= key_bytes(vals.take(j)) + (key_bytes(dl.skip(j)) + vals.last().bytes()));
    }
}

/// Two value lists with the same stored bytes assemble the same buffer.
pub proof fn lemma_key_bytes_congruent(a: Seq<FieldValue>, b: Seq<FieldValue>)
    requires
        a.len() == b.len(),
        forall|i: int| 0 <= i < a.len() ==> (#[trigger] a[i]).bytes() == b[i].bytes(),
    ensures
        key_bytes(a) == key_bytes(b),
    decreases a.len(),
{
    if a.len() > 0 {
        lemma_key_bytes_congruent(a.drop_last(), b.drop_last());
        assert(a.last().bytes() == b.last().bytes());
    }
}

/// A buffer assembled from values whose bytes are all one constant is
/// that constant throughout.
pub proof fn lemma_key_bytes_constant(vals: Seq<FieldValue>, c: u8)
    requires
        forall|i: int, j: int|
            0 <= i < vals.len() && 0 <= j < vals[i].bytes().len() ==> (#[trigger] vals[i].bytes()[j])
                == c,
    ensures
        forall|j: int| 0 <= j < key_bytes(vals).len() ==> key_bytes(vals)[j] == c,
    decreases vals.len(),
{
    if vals.len() > 0 {
        let dl = vals.drop_last();
        assert forall|i: int, j: int|
            0 <= i < dl.len() && 0 <= j < dl[i].bytes().len() implies (#[trigger] dl[i].bytes()[j])
            == c by {
            assert(dl[i] == vals[i]);
        }
        lemma_key_bytes_constant(dl, c);
        let pre = key_bytes(dl);
        let lastb = vals.last().bytes();
        assert(key_bytes(vals) == pre + lastb);
        assert forall|j: int| 0 <= j < key_bytes(vals).len() implies key_bytes(vals)[j] == c by {
            if j < pre.len() {
                assert(key_bytes(vals)[j] == pre[j]);
            } else {
                assert(key_bytes(vals)[j] == lastb[j - pre.len()]);
                assert(vals.last() == vals[vals.len() - 1]);
                assert(vals[vals.len() - 1].bytes()[j - pre.len()] == c);
            }
        }
    }
}

/// The assembled buffer is as wide as the key, and each field's byte
/// range holds exactly that field's value.
pub proof fn lemma_key_bytes_fields(d: KeyDescriptor, vals: Seq<FieldValue>, m: int)
    requires
        d.wf(),
        values_match(d, vals),
        0 <= m <= vals.len(),
    ensures
        key_bytes(vals.take(m)).len() == if m == 0 {
            0int
        } else {
            d.fields()[m - 1].end()
        },
        forall|i: int|
            0 <= i < m ==> key_bytes(vals.take(m)).subrange(
                d.fields()[i].offset as int,
                d.fields()[i].end(),
            ) == vals[i].bytes(),
    decreases m,
{
    if m > 0 {
        lemma_key_bytes_fields(d, vals, m - 1);
        let prev = key_bytes(vals.take(m - 1));
        let cur = key_bytes(vals.take(m));
        assert(vals.take(m).drop_last() =~= vals.take(m - 1));
        assert(vals.take(m).last() == vals[m - 1]);
        assert(cur == prev + vals[m - 1].bytes());
        let off = d.fields()[m - 1].offset as int;
        let end = d.fields()[m - 1].end();
        assert(prev.len() == off);
        assert(cur.len() == end);
        assert(cur.subrange(off, end) =~= vals[m - 1].bytes());
        assert forall|i: int| 0 <= i < m - 1 implies cur.subrange(
            d.fields()[i].offset as int,
            d.fields()[i].end(),
        ) == vals[i].bytes() by {
            crate::descriptor::lemma_fields_disjoint(d, i, m - 1);
            assert(cur.subrange(d.fields()[i].offset as int, d.fields()[i].end()) =~= prev.subrange(
                d.fields()[i].offset as int,
                d.fields()[i].end(),
            ));
        }
    }
}

/// `lemma_key_bytes_fields` for the whole value list.
pub proof fn lemma_key_bytes_total(d: KeyDescriptor, vals: Seq<FieldValue>)
    requires
        d.wf(),
        values_match(d, vals),
    ensures
        key_bytes(vals).len() == d.total(),
        forall|i: int|
            0 <= i < vals.len() ==> key_bytes(vals).subrange(
                d.fields()[i].offset as int,
                d.fields()[i].end(),
            ) == vals[i].bytes(),
{
    assert(vals.take(vals.len() as int) =~= vals);
    lemma_key_bytes_fields(d, vals, vals.len() as int);
}

/// The fixed-width byte buffer of one key value.  Two keys are equal
/// exactly when their buffers are byte-identical, and ordered exactly as
/// their buffers compare lexicographically.
#[derive(Clone, Debug, Hash)]
pub struct EncodedKey {
    bytes: Vec<u8>,
}

impl View for EncodedKey {
    type V = Seq<u8>;

    closed spec fn view(&self) -> Seq<u8> {
        self.bytes@
    }
}

impl EncodedKey {
    /// A key buffer of a key type has exactly the type's total width.
    pub open spec fn wf(self, d: KeyDescriptor) -> bool {
        self@.len() == d.total()
    }

    /// The width of this buffer.
    pub fn len(&self) -> (r: usize)
        ensures
            r == self@.len(),
    {
        self.bytes.len()
    }

    /// The full buffer, borrowed.
    pub fn as_bytes(&self) -> (r: &[u8])
        ensures
            r@ == self@,
    {
        self.bytes.as_slice()
    }

    /// The full buffer, owned.
    pub fn to_vec(&self) -> (r: Vec<u8>)
        ensures
            r@ == self@,
    {
        vstd::slice::slice_to_vec(self.bytes.as_slice())
    }

    /// Pack one value per field into a fresh buffer.  The call succeeds
    /// exactly when one well-formed value of each field's kind is given,
    /// and then every byte of the buffer is written.
    pub fn encode(d: &KeyDescriptor, vals: &Vec<FieldValue>) -> (r: Result<EncodedKey, KeyError>)
        requires
            d.wf(),
            forall|i: int| 0 <= i < vals@.len() ==> (#[trigger] vals@[i]).wf(),
        ensures
            match r {
                Ok(k) => values_match(*d, vals@) && k.wf(*d) && k@ == key_bytes(vals@),
                Err(e) => !values_match(*d, vals@) && match e {
                    KeyError::WrongCount { expected, actual } => expected == d.fields().len()
                        && actual == vals@.len() && expected != actual,
                    KeyError::Value { field, error } => {
                        &&& vals@.len() == d.fields().len()
                        &&& field < vals@.len()
                        &&& vals@[field as int].kind() != d.fields()[field as int].kind
                        &&& forall|k: int|
                            0 <= k < field ==> (#[trigger] vals@[k]).kind() == d.fields()[k].kind
                        &&& error == mismatch_error(
                            d.fields()[field as int].kind,
                            vals@[field as int].kind(),
                        )
                    },
                },
            },
    {
        let n = d.field_count();
        if vals.len() != n {
            return Err(KeyError::WrongCount { expected: n, actual: vals.len() });
        }
        let mut buf: Vec<u8> = Vec::new();
        let mut i: usize = 0;
        proof {
            assert(vals@.take(0) =~= Seq::<FieldValue>::empty());
        }
        while i < n
            invariant
                i <= n,
                n == d.fields().len(),
                n == vals@.len(),
                d.wf(),
                forall|k: int| 0 <= k < vals@.len() ==> (#[trigger] vals@[k]).wf(),
                forall|k: int| 0 <= k < i ==> (#[trigger] vals@[k]).kind() == d.fields()[k].kind,
                buf@ == key_bytes(vals@.take(i as int)),
                buf@.len() == if i == 0 {
                    0int
                } else {
                    d.fields()[i - 1].end()
                },
            decreases n - i,
        {
            let f = d.field(i);
            let v = &vals[i];
            let vk = v.kind_exec();
            let fits = check_kind(v, &f.kind);
            if !fits {
                return Err(
                    KeyError::Value { field: i, error: mismatch_exec(f.kind, vk) },
                );
            }
            let ghost pre = buf@;
            buf.extend_from_slice(v.raw_bytes().as_slice());
            proof {
                assert(buf@ =~= pre + vals@[i as int].bytes());
                assert(vals@.take(i + 1).drop_last() =~= vals@.take(i as int));
                assert(vals@.take(i + 1).last() == vals@[i as int]);
                assert(buf@ == key_bytes(vals@.take(i + 1)));
            }
            i = i + 1;
        }
        proof {
            assert(vals@.take(n as int) =~= vals@);
        }
        Ok(EncodedKey { bytes: buf })
    }

    /// Pack a value for each supplied field and the configured default
    /// for each omitted one: construction by named arguments.  The
    /// result equals the default buffer with the supplied fields
    /// overwritten; no byte is left unwritten.
    pub fn encode_partial(d: &KeyDescriptor, vals: &Vec<Option<FieldValue>>) -> (r: Result<
        EncodedKey,
        KeyError,
    >)
        requires
            d.wf(),
            forall|i: int|
                0 <= i < vals@.len() ==> ((#[trigger] vals@[i]) matches Some(v) ==> v.wf()),
        ensures
            match r {
                Ok(k) => {
                    &&& vals@.len() == d.fields().len()
                    &&& forall|i: int|
                        0 <= i < vals@.len() ==> ((#[trigger] vals@[i]) matches Some(v) ==> v.kind()
                            == d.fields()[i].kind)
                    &&& values_match(*d, merged_values(*d, vals@))
                    &&& k.wf(*d)
                    &&& k@ == key_bytes(merged_values(*d, vals@))
                },
                Err(e) => match e {
                    KeyError::WrongCount { expected, actual } => expected == d.fields().len()
                        && actual == vals@.len() && expected != actual,
                    KeyError::Value { field, error } => {
                        &&& vals@.len() == d.fields().len()
                        &&& field < vals@.len()
                        &&& vals@[field as int] matches Some(v) && v.kind() != d.fields()[field as int].kind
                            && error == mismatch_error(d.fields()[field as int].kind, v.kind())
                        &&& forall|k: int|
                            0 <= k < field ==> ((#[trigger] vals@[k]) matches Some(v) ==> v.kind()
                                == d.fields()[k].kind)
                    },
                },
            },
    {
        let n = d.field_count();
        if vals.len() != n {
            return Err(KeyError::WrongCount { expected: n, actual: vals.len() });
        }
        let ghost merged = merged_values(*d, vals@);
        let mut buf: Vec<u8> = Vec::new();
        let mut i: usize = 0;
        proof {
            assert(merged.take(0) =~= Seq::<FieldValue>::empty());
        }
        while i < n
            invariant
                i <= n,
                n == d.fields().len(),
                n == vals@.len(),
                d.wf(),
                merged == merged_values(*d, vals@),
                forall|k: int|
                    0 <= k < vals@.len() ==> ((#[trigger] vals@[k]) matches Some(v) ==> v.wf()),
                forall|k: int|
                    0 <= k < i ==> ((#[trigger] vals@[k]) matches Some(v) ==> v.kind()
                        == d.fields()[k].kind),
                buf@ == key_bytes(merged.take(i as int)),
                buf@.len() == if i == 0 {
                    0int
                } else {
                    d.fields()[i - 1].end()
                },
            decreases n - i,
        {
            let f = d.field(i);
            let ghost pre = buf@;
            match &vals[i] {
                Some(v) => {
                    let vk = v.kind_exec();
                    let fits = check_kind(v, &f.kind);
                    if !fits {
                        return Err(
                            KeyError::Value { field: i, error: mismatch_exec(f.kind, vk) },
                        );
                    }
                    buf.extend_from_slice(v.raw_bytes().as_slice());
                },
                None => {
                    buf.extend_from_slice(f.default.raw_bytes().as_slice());
                },
            }
            proof {
                assert(buf@ =~= pre + merged[i as int].bytes());
                assert(merged.take(i + 1).drop_last() =~= merged.take(i as int));
                assert(merged.take(i + 1).last() == merged[i as int]);
                assert(buf@ == key_bytes(merged.take(i + 1)));
            }
            i = i + 1;
        }
        proof {
            assert(merged.take(n as int) =~= merged);
        }
        Ok(EncodedKey { bytes: buf })
    }

    /// The key with every field at its configured default.
    pub fn default_key(d: &KeyDescriptor) -> (r: EncodedKey)
        requires
            d.wf(),
        ensures
            r.wf(*d),
            r@ == key_bytes(defaults_of(*d)),
    {
        Self::assemble(d, Pick::Default)
    }

    /// The smallest encodable key: every field at its configured
    /// minimum.
    pub fn min_key(d: &KeyDescriptor) -> (r: EncodedKey)
        requires
            d.wf(),
        ensures
            r.wf(*d),
            r@ == key_bytes(minima_of(*d)),
    {
        Self::assemble(d, Pick::Minimum)
    }

    /// The largest encodable key: every field at its configured maximum.
    pub fn max_key(d: &KeyDescriptor) -> (r: EncodedKey)
        requires
            d.wf(),
        ensures
            r.wf(*d),
            r@ == key_bytes(maxima_of(*d)),
    {
        Self::assemble(d, Pick::Maximum)
    }

    /// One walk for the three whole-key compositions above.
    fn assemble(d: &KeyDescriptor, which: Pick) -> (r: EncodedKey)
        requires
            d.wf(),
        ensures
            r.wf(*d),
            r@ == key_bytes(picked_of(*d, which)),
    {
        let ghost vals = picked_of(*d, which);
        proof {
            assert(values_match(*d, vals));
        }
        let n = d.field_count();
        let mut buf: Vec<u8> = Vec::new();
        let mut i: usize = 0;
        proof {
            assert(vals.take(0) =~= Seq::<FieldValue>::empty());
        }
        while i < n
            invariant
                i <= n,
                n == d.fields().len(),
                d.wf(),
                vals == picked_of(*d, which),
                values_match(*d, vals),
                buf@ == key_bytes(vals.take(i as int)),
                buf@.len() == if i == 0 {
                    0int
                } else {
                    d.fields()[i - 1].end()
                },
            decreases n - i,
        {
            let f = d.field(i);
            let ghost pre = buf@;
            match which {
                Pick::Default => buf.extend_from_slice(f.default.raw_bytes().as_slice()),
                Pick::Minimum => buf.extend_from_slice(f.minimum.raw_bytes().as_slice()),
                Pick::Maximum => buf.extend_from_slice(f.maximum.raw_bytes().as_slice()),
            }
            proof {
                assert(buf@ =~= pre + vals[i as int].bytes());
                assert(vals.take(i + 1).drop_last() =~= vals.take(i as int));
                assert(vals.take(i + 1).last() == vals[i as int]);
                assert(buf@ == key_bytes(vals.take(i + 1)));
            }
            i = i + 1;
        }
        proof {
            assert(vals.take(n as int) =~= vals);
        }
        EncodedKey { bytes: buf }
    }

    /// Ingest any byte slice: missing trailing bytes read as zero,
    /// excess trailing bytes are ignored.
    pub fn from_slice(d: &KeyDescriptor, raw: &[u8]) -> (r: EncodedKey)
        requires
            d.wf(),
        ensures
            r.wf(*d),
            r@ == padded(raw@, d.total()),
    {
        let total = d.total_size();
        let m = raw.len();
        let count = if m < total {
            m
        } else {
            total
        };
        let mut buf: Vec<u8> = vec![0u8; total];
        let mut i: usize = 0;
        while i < count
            invariant
                i <= count,
                count <= total,
                count <= raw@.len(),
                buf@.len() == total,
                forall|k: int| 0 <= k < i ==> buf@[k] == raw@[k],
                forall|k: int| i <= k < total ==> buf@[k] == 0u8,
            decreases count - i,
        {
            buf[i] = raw[i];
            i = i + 1;
        }
        proof {
            assert(buf@ =~= padded(raw@, d.total()));
        }
        EncodedKey { bytes: buf }
    }

    /// Read one field's value back out of the buffer.
    pub fn get(&self, d: &KeyDescriptor, i: usize) -> (r: FieldValue)
        requires
            d.wf(),
            self.wf(*d),
            i < d.fields().len(),
        ensures
            r.wf(),
            r.kind() == d.fields()[i as int].kind,
            r.bytes() == self@.subrange(d.fields()[i as int].offset as int, d.fields()[i as int].end()),
    {
        proof {
            crate::descriptor::lemma_field_in_total(*d, i as int);
        }
        let f = d.field(i);
        let off = f.offset;
        let w = f.kind.size();
        let total = self.bytes.len();
        let mut out: Vec<u8> = Vec::new();
        let mut j: usize = 0;
        proof {
            assert(out@ =~= self@.subrange(off as int, off as int));
        }
        while j < w
            invariant
                j <= w,
                off + w <= total,
                total == self.bytes@.len(),
                self@ == self.bytes@,
                out@ == self@.subrange(off as int, off + j),
            decreases w - j,
        {
            let b = self.bytes[off + j];
            out.push(b);
            proof {
                assert(self@.subrange(off as int, off + j + 1) =~= self@.subrange(
                    off as int,
                    off + j,
                ).push(b));
            }
            j = j + 1;
        }
        FieldValue::from_parts(f.kind, out)
    }

    /// Overwrite one field's byte range in place, leaving every other
    /// byte untouched.  The call succeeds exactly when the value is of
    /// the field's kind.
    pub fn set(&mut self, d: &KeyDescriptor, i: usize, v: &FieldValue) -> (r: Result<
        (),
        FieldValueError,
    >)
        requires
            d.wf(),
            old(self).wf(*d),
            i < d.fields().len(),
            v.wf(),
        ensures
            final(self).wf(*d),
            match r {
                Ok(_) => v.kind() == d.fields()[i as int].kind && final(self)@ == spliced(
                    old(self)@,
                    d.fields()[i as int].offset as int,
                    v.bytes(),
                ),
                Err(e) => {
                    &&& v.kind() != d.fields()[i as int].kind
                    &&& final(self)@ == old(self)@
                    &&& e == mismatch_error(d.fields()[i as int].kind, v.kind())
                },
            },
    {
        proof {
            crate::descriptor::lemma_field_in_total(*d, i as int);
        }
        let f = d.field(i);
        let vk = v.kind_exec();
        let fits = check_kind(v, &f.kind);
        if !fits {
            return Err(mismatch_exec(f.kind, vk));
        }
        let off = f.offset;
        let w = f.kind.size();
        let total = self.bytes.len();
        let src = v.raw_bytes();
        let mut j: usize = 0;
        while j < w
            invariant
                j <= w,
                off + w <= total,
                total == old(self)@.len(),
                self.bytes@.len() == old(self)@.len(),
                src@.len() == w,
                src@ == v.bytes(),
                forall|k: int| off <= k < off + j ==> self.bytes@[k] == src@[k - off],
                forall|k: int|
                    0 <= k < self.bytes@.len() && !(off <= k < off + j) ==> self.bytes@[k] == old(
                        self,
                    )@[k],
            decreases w - j,
        {
            self.bytes[off + j] = src[j];
            j = j + 1;
        }
        proof {
            assert(self@ =~= spliced(old(self)@, off as int, v.bytes()));
        }
        Ok(())
    }
}

impl EncodedKey {
    /// Three-way comparison of two key buffers: plain lexicographic
    /// byte order, which for buffers of one key type is the tuple order
    /// of the decoded fields.
    pub fn compare(&self, other: &EncodedKey) -> (r: core::cmp::Ordering)
        ensures
            (r == core::cmp::Ordering::Less) == crate::bytes::lex_lt(self@, other@),
            (r == core::cmp::Ordering::Greater) == crate::bytes::lex_lt(other@, self@),
            (r == core::cmp::Ordering::Equal) == (self@ == other@),
    {
        let n1 = self.bytes.len();
        let n2 = other.bytes.len();
        let m = if n1 < n2 {
            n1
        } else {
            n2
        };
        let mut i: usize = 0;
        while i < m
            invariant
                i <= m,
                m <= n1,
                m <= n2,
                n1 == self.bytes@.len(),
                n2 == other.bytes@.len(),
                self@ == self.bytes@,
                other@ == other.bytes@,
                forall|k: int| 0 <= k < i ==> self.bytes@[k] == other.bytes@[k],
            decreases m - i,
        {
            let x = self.bytes[i];
            let y = other.bytes[i];
            if x < y {
                proof {
                    crate::bytes::lemma_lex_at_first_difference(self@, other@, i as int);
                    crate::bytes::lemma_lex_at_first_difference(other@, self@, i as int);
                }
                return core::cmp::Ordering::Less;
            }
            if y < x {
                proof {
                    crate::bytes::lemma_lex_at_first_difference(self@, other@, i as int);
                    crate::bytes::lemma_lex_at_first_difference(other@, self@, i as int);
                }
                return core::cmp::Ordering::Greater;
            }
            i = i + 1;
        }
        proof {
            if n1 <= n2 {
                crate::bytes::lemma_lex_prefix(self@, other@);
            } else {
                crate::bytes::lemma_lex_prefix(other@, self@);
            }
            if n1 == n2 {
                assert(self@ =~= other@);
            }
        }
        if n1 < n2 {
            core::cmp::Ordering::Less
        } else if n2 < n1 {
            core::cmp::Ordering::Greater
        } else {
            core::cmp::Ordering::Equal
        }
    }
}

impl PartialEq for EncodedKey {
    /// Two keys are equal exactly when their buffers are byte-identical.
    fn eq(&self, other: &EncodedKey) -> (r: bool) {
        let r = self.bytes == other.bytes;
        proof {
            if self.bytes@ =~= other.bytes@ {
                assert(self@ == other@);
            }
        }
        r
    }
}

impl vstd::std_specs::cmp::PartialEqSpecImpl for EncodedKey {
    open spec fn obeys_eq_spec() -> bool {
        true
    }

    open spec fn eq_spec(&self, other: &EncodedKey) -> bool {
        self@ == other@
    }
}

impl Eq for EncodedKey {

}

impl PartialOrd for EncodedKey {
    /// Keys order exactly as their buffers compare byte-wise.
    fn partial_cmp(&self, other: &EncodedKey) -> (r: Option<core::cmp::Ordering>) {
        Some(self.compare(other))
    }
}

impl vstd::std_specs::cmp::PartialOrdSpecImpl for EncodedKey {
    open spec fn obeys_partial_cmp_spec() -> bool {
        true
    }

    open spec fn partial_cmp_spec(&self, other: &EncodedKey) -> Option<core::cmp::Ordering> {
        if crate::bytes::lex_lt(self@, other@) {
            Some(core::cmp::Ordering::Less)
        } else if crate::bytes::lex_lt(other@, self@) {
            Some(core::cmp::Ordering::Greater)
        } else {
            Some(core::cmp::Ordering::Equal)
        }
    }
}

/// Which configured per-field value a whole-key composition uses.
#[derive(Copy, Clone, Debug, PartialEq, Eq, Structural)]
enum Pick {
    Default,
    Minimum,
    Maximum,
}

/// The per-field values a composition picks.
spec fn picked_of(d: KeyDescriptor, which: Pick) -> Seq<FieldValue> {
    match which {
        Pick::Default => defaults_of(d),
        Pick::Minimum => minima_of(d),
        Pick::Maximum => maxima_of(d),
    }
}

/// The merged value list of a partial encode: the supplied value where
/// one is given, the field's default otherwise.
pub open spec fn merged_values(d: KeyDescriptor, opts: Seq<Option<FieldValue>>) -> Seq<FieldValue> {
    Seq::new(
        d.fields().len(),
        |i: int|
            match opts[i] {
                Some(v) => v,
                None => d.fields()[i].default,
            },
    )
}

/// Whether a value is well-formed and of the given kind.
fn check_kind(v: &FieldValue, kind: &FieldSize) -> (r: bool)
    ensures
        r == (v.wf() && v.kind() == *kind),
{
    let k = v.kind_exec();
    let w = k.size();
    v.raw_bytes().len() == w && k == *kind
}

/// The runtime error for a value of the wrong kind.
fn mismatch_exec(expected: FieldSize, actual: FieldSize) -> (r: FieldValueError)
    ensures
        r == mismatch_error(expected, actual),
{
    match (expected, actual) {
        (FieldSize::Array(n), FieldSize::Array(m)) => FieldValueError::WrongSize {
            expected: n,
            actual: m,
        },
        _ => FieldValueError::WrongKind { expected, actual },
    }
}

} // verus!
