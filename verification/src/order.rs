//! The ordering guarantee of the codec.
//!
//! Byte-wise lexicographic comparison of two encoded keys of one key
//! type is exactly the field-by-field comparison of the decoded tuples,
//! most significant field first, with integer fields compared
//! numerically and array fields byte-wise.  The sign-flip transform on
//! signed fields is what makes this true; the proof reduces each field
//! to the numeric order of its biased stored value.  Equal buffers,
//! likewise, decode to equal tuples: the encoding is collision-free.

use vstd::prelude::*;
use crate::bytes::{lex_lt, lemma_lex_concat, lemma_lex_trichotomy, lemma_concat_injective};
use crate::kind::{FieldSize, lemma_decode_in_range, lemma_int_order};
use crate::value::FieldValue;
use crate::descriptor::KeyDescriptor;
use crate::key::{key_bytes, values_match, lemma_key_bytes_skip};

verus! {

/// Native order of two stored values of one kind: numeric for integer
/// kinds, byte-wise for arrays.
pub open spec fn field_value_lt(k: FieldSize, a: Seq<u8>, b: Seq<u8>) -> bool {
    if k.is_int() {
        k.decode_int(a) < k.decode_int(b)
    } else {
        lex_lt(a, b)
    }
}

/// Tuple order of two value lists, decided by the fields from `j` on.
pub open spec fn tuple_lt_from(
    d: KeyDescriptor,
    a: Seq<FieldValue>,
    b: Seq<FieldValue>,
    j: int,
) -> bool
    decreases d.fields().len() - j,
{
    if j < 0 || j >= d.fields().len() {
        false
    } else if field_value_lt(d.fields()[j].kind, a[j].bytes(), b[j].bytes()) {
        true
    } else if field_value_lt(d.fields()[j].kind, b[j].bytes(), a[j].bytes()) {
        false
    } else {
        tuple_lt_from(d, a, b, j + 1)
    }
}

/// Field-by-field order of two decoded tuples, the first field most
/// significant.
pub open spec fn tuple_lt(d: KeyDescriptor, a: Seq<FieldValue>, b: Seq<FieldValue>) -> bool {
    tuple_lt_from(d, a, b, 0)
}

/// For one field's stored bytes, lexicographic order is native value
/// order, and byte equality is value equality.
proof fn lemma_field_lex(k: FieldSize, a: Seq<u8>, b: Seq<u8>)
    requires
        a.len() == k.spec_size(),
        b.len() == k.spec_size(),
    ensures
        lex_lt(a, b) <==> field_value_lt(k, a, b),
        (a == b) <==> (!field_value_lt(k, a, b) && !field_value_lt(k, b, a)),
{
    if k.is_int() {
        lemma_decode_in_range(k, a);
        lemma_decode_in_range(k, b);
        lemma_int_order(k, k.decode_int(a), k.decode_int(b));
        lemma_int_order(k, k.decode_int(b), k.decode_int(a));
        assert(k.decode_int(a) == k.decode_int(b) ==> a == b);
    } else {
        lemma_lex_trichotomy(a, b);
    }
}

/// The induction behind the ordering guarantee: from field `j` on, the
/// remaining buffer bytes compare as the remaining fields do.
proof fn lemma_order_from(d: KeyDescriptor, a: Seq<FieldValue>, b: Seq<FieldValue>, j: int)
    requires
        d.wf(),
        values_match(d, a),
        values_match(d, b),
        0 <= j <= d.fields().len(),
    ensures
        lex_lt(key_bytes(a.skip(j)), key_bytes(b.skip(j))) <==> tuple_lt_from(d, a, b, j),
        (key_bytes(a.skip(j)) == key_bytes(b.skip(j))) <==> (forall|i: int|
            j <= i < a.len() ==> (#[trigger] a[i]).bytes() == b[i].bytes()),
    decreases d.fields().len() - j,
{
    let n = d.fields().len() as int;
    if j == n {
        assert(a.skip(j) =~= Seq::<FieldValue>::empty());
        assert(b.skip(j) =~= Seq::<FieldValue>::empty());
    } else {
        lemma_key_bytes_skip(a, j);
        lemma_key_bytes_skip(b, j);
        let a0 = a[j].bytes();
        let b0 = b[j].bytes();
        let ra = key_bytes(a.skip(j + 1));
        let rb = key_bytes(b.skip(j + 1));
        let k = d.fields()[j].kind;
        lemma_lex_concat(a0, b0, ra, rb);
        lemma_concat_injective(a0, b0, ra, rb);
        lemma_field_lex(k, a0, b0);
        lemma_order_from(d, a, b, j + 1);
        if a0 == b0 && (forall|i: int| j + 1 <= i < a.len() ==> (#[trigger] a[i]).bytes()
            == b[i].bytes()) {
            assert(forall|i: int| j <= i < a.len() ==> (#[trigger] a[i]).bytes() == b[i].bytes());
        }
    }
}

/// Order preservation: for two keys of one key type, byte-wise
/// lexicographic comparison of the encoded buffers is exactly the
/// field-by-field comparison of the value tuples, and the buffers are
/// byte-identical exactly when every field's stored value agrees --- the
/// encoding never collides.
pub proof fn lemma_order_preservation(d: KeyDescriptor, a: Seq<FieldValue>, b: Seq<FieldValue>)
    requires
        d.wf(),
        values_match(d, a),
        values_match(d, b),
    ensures
        lex_lt(key_bytes(a), key_bytes(b)) <==> tuple_lt(d, a, b),
        (key_bytes(a) == key_bytes(b)) <==> (forall|i: int|
            0 <= i < a.len() ==> (#[trigger] a[i]).bytes() == b[i].bytes()),
{
    assert(a.skip(0) =~= a);
    assert(b.skip(0) =~= b);
    lemma_order_from(d, a, b, 0);
}

} // verus!
