//! The field table of a key type.
//!
//! A key type is declared as an ordered list of fields, each a kind with
//! optional overrides for its display name, default, minimum and maximum.
//! Building the table resolves the overrides, computes each field's byte
//! offset as the running sum of the preceding widths, and rejects bad
//! declarations once and for all: an empty field list, a zero-length
//! array, an override given twice for one field, or an override whose
//! value is of the wrong kind.  Every later operation of the codec only
//! reads the finished table.

use vstd::prelude::*;
use crate::kind::FieldSize;
use crate::value::FieldValue;

verus! {

/// One per-field override in a declaration: a display name, or a value
/// for the field's default, minimum or maximum.
#[derive(Clone, Debug)]
pub enum FieldOverride {
    Name(String),
    Default(FieldValue),
    Minimum(FieldValue),
    Maximum(FieldValue),
}

impl FieldOverride {
    pub open spec fn is_name(self) -> bool {
        self matches FieldOverride::Name(_)
    }

    pub open spec fn is_default(self) -> bool {
        self matches FieldOverride::Default(_)
    }

    pub open spec fn is_minimum(self) -> bool {
        self matches FieldOverride::Minimum(_)
    }

    pub open spec fn is_maximum(self) -> bool {
        self matches FieldOverride::Maximum(_)
    }

    /// Two overrides configure the same attribute of a field.
    pub open spec fn same_attribute(self, other: FieldOverride) -> bool {
        ||| self.is_name() && other.is_name()
        ||| self.is_default() && other.is_default()
        ||| self.is_minimum() && other.is_minimum()
        ||| self.is_maximum() && other.is_maximum()
    }

    /// Whether this override is usable on a field of the given kind: a
    /// name always is, a value override must carry a well-formed value of
    /// that kind.
    pub open spec fn fits(self, kind: FieldSize) -> bool {
        match self {
            FieldOverride::Name(_) => true,
            FieldOverride::Default(v) => v.wf() && v.kind() == kind,
            FieldOverride::Minimum(v) => v.wf() && v.kind() == kind,
            FieldOverride::Maximum(v) => v.wf() && v.kind() == kind,
        }
    }
}

/// The declaration of one field: its storage identifier, its kind, and
/// any overrides, in the order they were written.
#[derive(Clone, Debug)]
pub struct FieldDecl {
    pub name: String,
    pub kind: FieldSize,
    pub overrides: Vec<FieldOverride>,
}

impl FieldDecl {
    /// A bare declaration with no overrides.
    pub fn new(name: String, kind: FieldSize) -> (r: FieldDecl)
        ensures
            r.name@ == name@,
            r.kind == kind,
            r.overrides@.len() == 0,
    {
        FieldDecl { name, kind, overrides: Vec::new() }
    }

    /// Append one override to the declaration.
    pub fn with_override(self, o: FieldOverride) -> (r: FieldDecl)
        ensures
            r.name@ == self.name@,
            r.kind == self.kind,
            r.overrides@ == self.overrides@.push(o),
    {
        let mut d = self;
        d.overrides.push(o);
        d
    }
}

/// What is wrong with one override scan position.
#[derive(Copy, Clone, Debug, PartialEq, Eq, Structural)]
pub enum DeclFault {
    ZeroArray,
    Duplicate,
    KindClash,
}

/// The error a key-type declaration is rejected with.  These are the
/// definition-time failures: they happen once, when the table is built,
/// never per encode or decode call.
#[derive(Copy, Clone, Debug, PartialEq, Eq, Structural)]
pub enum KeyDefError {
    /// The declaration has no fields at all.
    NoFields,
    /// The field at this index is a zero-length array.
    ZeroArray { field: usize },
    /// The field at this index carries the same override twice.
    DuplicateOverride { field: usize },
    /// The field at this index carries an override of the wrong kind.
    OverrideKind { field: usize },
    /// The widths of the fields together exceed the address space.
    KeyTooLarge,
}

/// The first failing override of `s` at or after position `j`, scanning
/// in order: a repeat of an earlier attribute counts as a duplicate, an
/// override that does not fit the kind as a clash.
pub open spec fn scan_fault(kind: FieldSize, s: Seq<FieldOverride>, j: int) -> Option<DeclFault>
    decreases s.len() - j,
{
    if j < 0 || j >= s.len() {
        None
    } else if exists|i: int| 0 <= i < j && (#[trigger] s[i]).same_attribute(s[j]) {
        Some(DeclFault::Duplicate)
    } else if !s[j].fits(kind) {
        Some(DeclFault::KindClash)
    } else {
        scan_fault(kind, s, j + 1)
    }
}

/// The first override at or after `j` that sets the display name, and the
/// name it sets.
pub open spec fn find_name(s: Seq<FieldOverride>, j: int) -> Option<Seq<char>>
    decreases s.len() - j,
{
    if j < 0 || j >= s.len() {
        None
    } else {
        match s[j] {
            FieldOverride::Name(n) => Some(n@),
            _ => find_name(s, j + 1),
        }
    }
}

/// The first override at or after `j` that sets the default value.
pub open spec fn find_default(s: Seq<FieldOverride>, j: int) -> Option<FieldValue>
    decreases s.len() - j,
{
    if j < 0 || j >= s.len() {
        None
    } else {
        match s[j] {
            FieldOverride::Default(v) => Some(v),
            _ => find_default(s, j + 1),
        }
    }
}

/// The first override at or after `j` that sets the minimum value.
pub open spec fn find_minimum(s: Seq<FieldOverride>, j: int) -> Option<FieldValue>
    decreases s.len() - j,
{
    if j < 0 || j >= s.len() {
        None
    } else {
        match s[j] {
            FieldOverride::Minimum(v) => Some(v),
            _ => find_minimum(s, j + 1),
        }
    }
}

/// The first override at or after `j` that sets the maximum value.
pub open spec fn find_maximum(s: Seq<FieldOverride>, j: int) -> Option<FieldValue>
    decreases s.len() - j,
{
    if j < 0 || j >= s.len() {
        None
    } else {
        match s[j] {
            FieldOverride::Maximum(v) => Some(v),
            _ => find_maximum(s, j + 1),
        }
    }
}

impl FieldDecl {
    /// The first fault of this declaration: a zero-length array kind, or
    /// the first failing override.
    pub open spec fn fault(self) -> Option<DeclFault> {
        if self.kind == FieldSize::Array(0) {
            Some(DeclFault::ZeroArray)
        } else {
            scan_fault(self.kind, self.overrides@, 0)
        }
    }
}

/// A fault-free override list fits the kind throughout.
proof fn lemma_scan_fault_none(kind: FieldSize, s: Seq<FieldOverride>, j: int)
    requires
        0 <= j,
        scan_fault(kind, s, j) is None,
    ensures
        forall|k: int| j <= k < s.len() ==> (#[trigger] s[k]).fits(kind),
    decreases s.len() - j,
{
    if j < s.len() {
        lemma_scan_fault_none(kind, s, j + 1);
    }
}

/// Whatever value the scan for a default finds, it fits the kind,
/// provided every override does.
proof fn lemma_find_default_fits(kind: FieldSize, s: Seq<FieldOverride>, j: int)
    requires
        0 <= j,
        forall|k: int| 0 <= k < s.len() ==> (#[trigger] s[k]).fits(kind),
    ensures
        match find_default(s, j) {
            Some(v) => v.wf() && v.kind() == kind,
            None => true,
        },
    decreases s.len() - j,
{
    if j < s.len() {
        let o = s[j];
        match o {
            FieldOverride::Default(v) => {
                assert(s[j].fits(kind));
            },
            _ => {
                lemma_find_default_fits(kind, s, j + 1);
            },
        }
    }
}

/// Whatever value the scan for a minimum finds, it fits the kind,
/// provided every override does.
proof fn lemma_find_minimum_fits(kind: FieldSize, s: Seq<FieldOverride>, j: int)
    requires
        0 <= j,
        forall|k: int| 0 <= k < s.len() ==> (#[trigger] s[k]).fits(kind),
    ensures
        match find_minimum(s, j) {
            Some(v) => v.wf() && v.kind() == kind,
            None => true,
        },
    decreases s.len() - j,
{
    if j < s.len() {
        let o = s[j];
        match o {
            FieldOverride::Minimum(v) => {
                assert(s[j].fits(kind));
            },
            _ => {
                lemma_find_minimum_fits(kind, s, j + 1);
            },
        }
    }
}

/// Whatever value the scan for a maximum finds, it fits the kind,
/// provided every override does.
proof fn lemma_find_maximum_fits(kind: FieldSize, s: Seq<FieldOverride>, j: int)
    requires
        0 <= j,
        forall|k: int| 0 <= k < s.len() ==> (#[trigger] s[k]).fits(kind),
    ensures
        match find_maximum(s, j) {
            Some(v) => v.wf() && v.kind() == kind,
            None => true,
        },
    decreases s.len() - j,
{
    if j < s.len() {
        let o = s[j];
        match o {
            FieldOverride::Maximum(v) => {
                assert(s[j].fits(kind));
            },
            _ => {
                lemma_find_maximum_fits(kind, s, j + 1);
            },
        }
    }
}

/// One resolved field of a key type: its kind and byte offset in the
/// packed buffer, with its display name and its default, minimum and
/// maximum values in stored form.
#[derive(Clone, Debug)]
pub struct FieldSpec {
    pub name: String,
    pub kind: FieldSize,
    pub offset: usize,
    pub default: FieldValue,
    pub minimum: FieldValue,
    pub maximum: FieldValue,
}

impl FieldSpec {
    /// The width in bytes of this field.
    pub open spec fn width(self) -> nat {
        self.kind.spec_size()
    }

    /// The first byte position after this field.
    pub open spec fn end(self) -> int {
        self.offset + self.width()
    }

    /// The three configured values are well-formed values of the field's
    /// kind, and the field is at least one byte wide.
    pub open spec fn wf(self) -> bool {
        &&& self.width() >= 1
        &&& self.default.wf() && self.default.kind() == self.kind
        &&& self.minimum.wf() && self.minimum.kind() == self.kind
        &&& self.maximum.wf() && self.maximum.kind() == self.kind
    }
}

/// How a resolved field relates to its declaration: same kind, the given
/// offset, and each attribute either the unique override or the kind's
/// own default.
pub open spec fn field_matches_decl(f: FieldSpec, d: FieldDecl, offset: int) -> bool {
    &&& f.kind == d.kind
    &&& f.offset == offset
    &&& f.name@ == match find_name(d.overrides@, 0) {
        Some(n) => n,
        None => d.name@,
    }
    &&& f.default.bytes() == match find_default(d.overrides@, 0) {
        Some(v) => v.bytes(),
        None => d.kind.default_bytes(),
    }
    &&& f.minimum.bytes() == match find_minimum(d.overrides@, 0) {
        Some(v) => v.bytes(),
        None => d.kind.min_bytes(),
    }
    &&& f.maximum.bytes() == match find_maximum(d.overrides@, 0) {
        Some(v) => v.bytes(),
        None => d.kind.max_bytes(),
    }
}

/// The total width in bytes of the declared fields.
pub open spec fn decls_width(s: Seq<FieldDecl>) -> nat
    decreases s.len(),
{
    if s.len() == 0 {
        0
    } else {
        decls_width(s.drop_last()) + s.last().kind.spec_size()
    }
}

/// The ordered field table of one key type, built once from its
/// declaration and immutable afterwards.
#[derive(Clone, Debug)]
pub struct KeyDescriptor {
    fields: Vec<FieldSpec>,
    total_size: usize,
}

impl KeyDescriptor {
    /// The resolved fields, in declaration order.
    pub closed spec fn fields(self) -> Seq<FieldSpec> {
        self.fields@
    }

    /// The width in bytes of the whole key.
    pub closed spec fn total(self) -> nat {
        self.total_size as nat
    }

    /// The table invariant: at least one field, every field well-formed,
    /// offsets the running sum of the preceding widths, and the total the
    /// end of the last field.
    pub open spec fn wf(self) -> bool {
        &&& self.fields().len() >= 1
        &&& forall|i: int| 0 <= i < self.fields().len() ==> (#[trigger] self.fields()[i]).wf()
        &&& self.fields()[0].offset == 0
        &&& forall|i: int|
            0 < i < self.fields().len() ==> (#[trigger] self.fields()[i]).offset
                == self.fields()[i - 1].end()
        &&& self.total() == self.fields().last().end()
    }

    /// Return the total size of the key in bytes.
    pub fn total_size(&self) -> (r: usize)
        ensures
            r == self.total(),
    {
        self.total_size
    }

    /// The number of fields.
    pub fn field_count(&self) -> (r: usize)
        ensures
            r == self.fields().len(),
    {
        self.fields.len()
    }

    /// The resolved field at the given index.
    pub fn field(&self, i: usize) -> (r: &FieldSpec)
        requires
            i < self.fields().len(),
        ensures
            *r == self.fields()[i as int],
    {
        &self.fields[i]
    }
}

/// Later fields start no earlier than where earlier fields end: the byte
/// ranges of distinct fields do not overlap.
pub proof fn lemma_fields_disjoint(d: KeyDescriptor, i: int, j: int)
    requires
        d.wf(),
        0 <= i < j < d.fields().len(),
    ensures
        d.fields()[i].end() <= d.fields()[j].offset,
    decreases j - i,
{
    if i + 1 < j {
        lemma_fields_disjoint(d, i + 1, j);
    }
}

/// Every field lies inside the key's total width.
pub proof fn lemma_field_in_total(d: KeyDescriptor, i: int)
    requires
        d.wf(),
        0 <= i < d.fields().len(),
    ensures
        d.fields()[i].end() <= d.total(),
        0 <= d.fields()[i].offset,
    decreases d.fields().len() - i,
{
    if i + 1 < d.fields().len() {
        lemma_field_in_total(d, i + 1);
    }
}

/// Every byte position of a key lies in exactly one field's range; this
/// finds it from a given start field.
proof fn lemma_position_in_field_from(d: KeyDescriptor, p: int, j: int)
    requires
        d.wf(),
        0 <= j < d.fields().len(),
        d.fields()[j].offset <= p < d.total(),
    ensures
        exists|i: int|
            j <= i < d.fields().len() && (#[trigger] d.fields()[i]).offset <= p < d.fields()[i].end(),
    decreases d.fields().len() - j,
{
    if p < d.fields()[j].end() {
        assert(d.fields()[j].offset <= p < d.fields()[j].end());
    } else {
        assert(j + 1 < d.fields().len());
        lemma_position_in_field_from(d, p, j + 1);
    }
}

/// Every byte position of a key lies in some field's range: the field
/// ranges cover the buffer without gaps.
pub proof fn lemma_position_in_field(d: KeyDescriptor, p: int)
    requires
        d.wf(),
        0 <= p < d.total(),
    ensures
        exists|i: int|
            0 <= i < d.fields().len() && (#[trigger] d.fields()[i]).offset <= p < d.fields()[i].end(),
{
    lemma_position_in_field_from(d, p, 0);
}

impl KeyDescriptor {
    /// Build the field table from a declaration.
    ///
    /// The declaration is accepted exactly when it has at least one
    /// field, no field is faulty, and the summed widths fit in `usize`;
    /// otherwise the error names the first failure, fields checked in
    /// order.
    pub fn try_new(decls: &Vec<FieldDecl>) -> (r: Result<KeyDescriptor, KeyDefError>)
        ensures
            match r {
                Ok(d) => {
                    &&& decls@.len() >= 1
                    &&& forall|i: int|
                        0 <= i < decls@.len() ==> (#[trigger] decls@[i]).fault() is None
                    &&& decls_width(decls@) <= usize::MAX
                    &&& d.wf()
                    &&& d.fields().len() == decls@.len()
                    &&& d.total() == decls_width(decls@)
                    &&& forall|i: int|
                        0 <= i < decls@.len() ==> field_matches_decl(
                            #[trigger] d.fields()[i],
                            decls@[i],
                            decls_width(decls@.take(i)) as int,
                        )
                },
                Err(e) => match e {
                    KeyDefError::NoFields => decls@.len() == 0,
                    KeyDefError::ZeroArray { field } => {
                        &&& field < decls@.len()
                        &&& decls@[field as int].fault() == Some(DeclFault::ZeroArray)
                        &&& forall|k: int| 0 <= k < field ==> (#[trigger] decls@[k]).fault() is None
                    },
                    KeyDefError::DuplicateOverride { field } => {
                        &&& field < decls@.len()
                        &&& decls@[field as int].fault() == Some(DeclFault::Duplicate)
                        &&& forall|k: int| 0 <= k < field ==> (#[trigger] decls@[k]).fault() is None
                    },
                    KeyDefError::OverrideKind { field } => {
                        &&& field < decls@.len()
                        &&& decls@[field as int].fault() == Some(DeclFault::KindClash)
                        &&& forall|k: int| 0 <= k < field ==> (#[trigger] decls@[k]).fault() is None
                    },
                    KeyDefError::KeyTooLarge => {
                        &&& decls@.len() >= 1
                        &&& forall|k: int|
                            0 <= k < decls@.len() ==> (#[trigger] decls@[k]).fault() is None
                        &&& decls_width(decls@) > usize::MAX
                    },
                },
            },
    {
        let n: usize = decls.len();
        if n == 0 {
            return Err(KeyDefError::NoFields);
        }
        // First pass: reject the first faulty declaration, if any.
        let mut idx: usize = 0;
        while idx < n
            invariant
                idx <= n,
                n == decls@.len(),
                forall|k: int| 0 <= k < idx ==> (#[trigger] decls@[k]).fault() is None,
            decreases n - idx,
        {
            match check_decl(&decls[idx]) {
                None => {},
                Some(DeclFault::ZeroArray) => {
                    return Err(KeyDefError::ZeroArray { field: idx });
                },
                Some(DeclFault::Duplicate) => {
                    return Err(KeyDefError::DuplicateOverride { field: idx });
                },
                Some(DeclFault::KindClash) => {
                    return Err(KeyDefError::OverrideKind { field: idx });
                },
            }
            idx = idx + 1;
        }
        // Second pass: resolve each field and lay the offsets out.
        let mut fields: Vec<FieldSpec> = Vec::new();
        let mut offset: usize = 0;
        let mut idx: usize = 0;
        while idx < n
            invariant
                idx <= n,
                n == decls@.len(),
                forall|k: int| 0 <= k < n ==> (#[trigger] decls@[k]).fault() is None,
                fields@.len() == idx,
                offset == decls_width(decls@.take(idx as int)),
                forall|k: int| 0 <= k < idx ==> (#[trigger] fields@[k]).wf(),
                forall|k: int|
                    0 <= k < idx ==> field_matches_decl(
                        #[trigger] fields@[k],
                        decls@[k],
                        decls_width(decls@.take(k)) as int,
                    ),
            decreases n - idx,
        {
            let d = &decls[idx];
            let w = d.kind.size();
            if w > usize::MAX - offset {
                proof {
                    lemma_decls_width_grows(decls@, idx as int);
                }
                return Err(KeyDefError::KeyTooLarge);
            }
            let f = resolve_decl(d, offset);
            fields.push(f);
            offset = offset + w;
            proof {
                assert(decls@.take(idx + 1).drop_last() =~= decls@.take(idx as int));
            }
            idx = idx + 1;
        }
        proof {
            assert(decls@.take(n as int) =~= decls@);
        }
        let total_size = offset;
        let descr = KeyDescriptor { fields, total_size };
        proof {
            assert forall|i: int| 0 < i < descr.fields().len() implies (
            #[trigger] descr.fields()[i]).offset == descr.fields()[i - 1].end() by {
                assert(decls@.take(i).drop_last() =~= decls@.take(i - 1));
            }
            assert(descr.fields().last().end() == decls_width(decls@)) by {
                let last = descr.fields().len() - 1;
                assert(decls@.take(last + 1) =~= decls@);
                assert(decls@.take(last + 1).drop_last() =~= decls@.take(last));
            }
        }
        Ok(descr)
    }
}

/// The running width never shrinks as more declared fields are counted.
proof fn lemma_decls_width_grows(s: Seq<FieldDecl>, i: int)
    requires
        0 <= i < s.len(),
    ensures
        decls_width(s.take(i)) + s[i].kind.spec_size() <= decls_width(s),
    decreases s.len() - i,
{
    if i == s.len() - 1 {
        assert(s.take(i + 1) =~= s);
        assert(s.take(i + 1).drop_last() =~= s.take(i));
    } else {
        lemma_decls_width_grows(s, i + 1);
        assert(s.take(i + 1).drop_last() =~= s.take(i));
    }
}

/// Check one declaration for its first fault.
fn check_decl(d: &FieldDecl) -> (r: Option<DeclFault>)
    ensures
        r == d.fault(),
{
    match d.kind {
        FieldSize::Array(s) => {
            if s == 0 {
                return Some(DeclFault::ZeroArray);
            }
        },
        _ => {},
    }
    let m: usize = d.overrides.len();
    let mut seen_name = false;
    let mut seen_default = false;
    let mut seen_minimum = false;
    let mut seen_maximum = false;
    let mut j: usize = 0;
    while j < m
        invariant
            j <= m,
            m == d.overrides@.len(),
            d.kind != FieldSize::Array(0),
            seen_name == exists|i: int| 0 <= i < j && (#[trigger] d.overrides@[i]).is_name(),
            seen_default == exists|i: int| 0 <= i < j && (#[trigger] d.overrides@[i]).is_default(),
            seen_minimum == exists|i: int| 0 <= i < j && (#[trigger] d.overrides@[i]).is_minimum(),
            seen_maximum == exists|i: int| 0 <= i < j && (#[trigger] d.overrides@[i]).is_maximum(),
            scan_fault(d.kind, d.overrides@, j as int) == d.fault(),
        decreases m - j,
    {
        let o = &d.overrides[j];
        let ghost oj = d.overrides@[j as int];
        let dup = match o {
            FieldOverride::Name(_) => seen_name,
            FieldOverride::Default(_) => seen_default,
            FieldOverride::Minimum(_) => seen_minimum,
            FieldOverride::Maximum(_) => seen_maximum,
        };
        if dup {
            proof {
                if oj.is_name() {
                    let i = choose|i: int| 0 <= i < j && (#[trigger] d.overrides@[i]).is_name();
                    assert(d.overrides@[i].same_attribute(oj));
                } else if oj.is_default() {
                    let i = choose|i: int| 0 <= i < j && (#[trigger] d.overrides@[i]).is_default();
                    assert(d.overrides@[i].same_attribute(oj));
                } else if oj.is_minimum() {
                    let i = choose|i: int| 0 <= i < j && (#[trigger] d.overrides@[i]).is_minimum();
                    assert(d.overrides@[i].same_attribute(oj));
                } else {
                    let i = choose|i: int| 0 <= i < j && (#[trigger] d.overrides@[i]).is_maximum();
                    assert(d.overrides@[i].same_attribute(oj));
                }
            }
            return Some(DeclFault::Duplicate);
        }
        proof {
            assert forall|i: int| 0 <= i < j implies !(#[trigger] d.overrides@[i]).same_attribute(
                oj,
            ) by {
                if d.overrides@[i].same_attribute(oj) {
                    if oj.is_name() {
                        assert(d.overrides@[i].is_name());
                    } else if oj.is_default() {
                        assert(d.overrides@[i].is_default());
                    } else if oj.is_minimum() {
                        assert(d.overrides@[i].is_minimum());
                    } else {
                        assert(d.overrides@[i].is_maximum());
                    }
                }
            }
        }
        let fits = match o {
            FieldOverride::Name(_) => true,
            FieldOverride::Default(v) => override_value_fits(v, &d.kind),
            FieldOverride::Minimum(v) => override_value_fits(v, &d.kind),
            FieldOverride::Maximum(v) => override_value_fits(v, &d.kind),
        };
        if !fits {
            return Some(DeclFault::KindClash);
        }
        match o {
            FieldOverride::Name(_) => {
                seen_name = true;
            },
            FieldOverride::Default(_) => {
                seen_default = true;
            },
            FieldOverride::Minimum(_) => {
                seen_minimum = true;
            },
            FieldOverride::Maximum(_) => {
                seen_maximum = true;
            },
        }
        j = j + 1;
    }
    None
}

/// Whether an override value is well-formed and of the field's kind.
fn override_value_fits(v: &FieldValue, kind: &FieldSize) -> (r: bool)
    ensures
        r == (v.wf() && v.kind() == *kind),
{
    let k = v.kind_exec();
    let w = k.size();
    v.raw_bytes().len() == w && k == *kind
}

/// Resolve one fault-free declaration into its field, placed at the given
/// offset.
fn resolve_decl(d: &FieldDecl, offset: usize) -> (f: FieldSpec)
    requires
        d.fault() is None,
    ensures
        f.wf(),
        field_matches_decl(f, *d, offset as int),
{
    proof {
        lemma_scan_fault_none(d.kind, d.overrides@, 0);
    }
    let m: usize = d.overrides.len();
    let mut name: Option<String> = None;
    let mut default: Option<FieldValue> = None;
    let mut minimum: Option<FieldValue> = None;
    let mut maximum: Option<FieldValue> = None;
    let mut j: usize = 0;
    while j < m
        invariant
            j <= m,
            m == d.overrides@.len(),
            forall|k: int| 0 <= k < m ==> (#[trigger] d.overrides@[k]).fits(d.kind),
            match name {
                Some(s) => find_name(d.overrides@, 0) == Some(s@),
                None => find_name(d.overrides@, 0) == find_name(d.overrides@, j as int),
            },
            match default {
                Some(v) => find_default(d.overrides@, 0) matches Some(w) && v.kind() == w.kind()
                    && v.bytes() == w.bytes() && v.wf(),
                None => find_default(d.overrides@, 0) == find_default(d.overrides@, j as int),
            },
            match minimum {
                Some(v) => find_minimum(d.overrides@, 0) matches Some(w) && v.kind() == w.kind()
                    && v.bytes() == w.bytes() && v.wf(),
                None => find_minimum(d.overrides@, 0) == find_minimum(d.overrides@, j as int),
            },
            match maximum {
                Some(v) => find_maximum(d.overrides@, 0) matches Some(w) && v.kind() == w.kind()
                    && v.bytes() == w.bytes() && v.wf(),
                None => find_maximum(d.overrides@, 0) == find_maximum(d.overrides@, j as int),
            },
        decreases m - j,
    {
        match &d.overrides[j] {
            FieldOverride::Name(s) => {
                if name.is_none() {
                    name = Some(s.clone());
                }
            },
            FieldOverride::Default(v) => {
                if default.is_none() {
                    assert(d.overrides@[j as int].fits(d.kind));
                    default = Some(v.duplicate());
                }
            },
            FieldOverride::Minimum(v) => {
                if minimum.is_none() {
                    assert(d.overrides@[j as int].fits(d.kind));
                    minimum = Some(v.duplicate());
                }
            },
            FieldOverride::Maximum(v) => {
                if maximum.is_none() {
                    assert(d.overrides@[j as int].fits(d.kind));
                    maximum = Some(v.duplicate());
                }
            },
        }
        j = j + 1;
    }
    let name = match name {
        Some(s) => s,
        None => d.name.clone(),
    };
    let default = match default {
        Some(v) => v,
        None => FieldValue::default_of(d.kind),
    };
    let minimum = match minimum {
        Some(v) => v,
        None => FieldValue::min_of(d.kind),
    };
    let maximum = match maximum {
        Some(v) => v,
        None => FieldValue::max_of(d.kind),
    };
    proof {
        if d.kind.spec_size() == 0 {
            assert(d.kind == FieldSize::Array(0));
            assert(false);
        }
        lemma_find_default_fits(d.kind, d.overrides@, 0);
        lemma_find_minimum_fits(d.kind, d.overrides@, 0);
        lemma_find_maximum_fits(d.kind, d.overrides@, 0);
    }
    FieldSpec { name, kind: d.kind, offset, default, minimum, maximum }
}

} // verus!
