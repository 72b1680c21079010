use vstd::prelude::*;
use crate::descriptor::{FieldDescriptor, FieldKind, PayloadKind, VariantSet};
use crate::error::DecodeError;
use crate::response::DetectIntentResponse;
use crate::tag::canonical_tag;
use crate::value::Value;

verus! {

/// One decoded field value, of the wire format's native typing.
#[derive(Debug, PartialEq, Eq)]
pub enum FieldValue {
    Text(String),
    Number(String),
    Boolean(bool),
}

/// The outcome of a successful decode: which variant of the target set was
/// selected, and the decoded values of its declared fields, in declaration
/// order. An `Empty` variant decodes to no fields.
#[derive(Debug, PartialEq, Eq)]
pub struct DecodedIntent {
    pub variant: usize,
    pub fields: Vec<FieldValue>,
}

/// Coercion of one wire value to a declared field kind: text must be a
/// string, a number a number literal, a boolean a boolean. Nothing else
/// coerces.
pub open spec fn spec_coerce(kind: FieldKind, v: Value) -> Option<FieldValue> {
    match (kind, v) {
        (FieldKind::Text, Value::Str(s)) => Some(FieldValue::Text(s)),
        (FieldKind::Number, Value::Num(s)) => Some(FieldValue::Number(s)),
        (FieldKind::Boolean, Value::Bool(b)) => Some(FieldValue::Boolean(b)),
        _ => None,
    }
}

/// A declared field is satisfied by the bag: present and coercible.
pub open spec fn field_ok(bag: Value, fd: FieldDescriptor) -> bool {
    bag.lookup(fd.name@) matches Some(v) && spec_coerce(fd.kind, v) is Some
}

/// The decoded value of a satisfied field.
pub open spec fn field_val(bag: Value, fd: FieldDescriptor) -> FieldValue
    recommends
        field_ok(bag, fd),
{
    spec_coerce(fd.kind, bag.lookup(fd.name@)->0)->0
}

/// The error an unsatisfied field gives: absent fields are missing, present
/// but uncoercible fields mismatch.
pub open spec fn field_err(bag: Value, fd: FieldDescriptor) -> DecodeError {
    if bag.lookup(fd.name@) is None {
        DecodeError::MissingField(fd.name)
    } else {
        DecodeError::FieldTypeMismatch(fd.name)
    }
}

/// The contract of `decode_fields`: on success every declared field is
/// satisfied and decoded in declaration order; on failure the first
/// unsatisfied field (every declared field before it is satisfied) names the
/// error. Fields present in the bag but not declared are ignored.
pub open spec fn decode_fields_post(
    fields: Seq<FieldDescriptor>,
    bag: Value,
    r: Result<Vec<FieldValue>, DecodeError>,
) -> bool {
    match r {
        Ok(vals) => {
            &&& vals@.len() == fields.len()
            &&& forall|k: int| 0 <= k < fields.len() ==> field_ok(bag, #[trigger] fields[k])
            &&& forall|k: int|
                0 <= k < fields.len() ==> #[trigger] vals@[k] == field_val(bag, fields[k])
        },
        Err(e) => exists|k: int|
            {
                &&& 0 <= k < fields.len()
                &&& !field_ok(bag, #[trigger] fields[k])
                &&& forall|j: int| 0 <= j < k ==> field_ok(bag, #[trigger] fields[j])
                &&& e == field_err(bag, fields[k])
            },
    }
}

/// Index `i` is the variant the selection tag picks: the first variant whose
/// canonical tag is exactly the reported name, or, when no name was
/// reported, the first variant flagged as the fallback.
pub open spec fn selects(intent_name: Option<String>, set: VariantSet, i: int) -> bool {
    &&& 0 <= i < set.variants@.len()
    &&& match intent_name {
        Some(name) => {
            &&& set.variants@[i].tag() == name@
            &&& forall|j: int| 0 <= j < i ==> #[trigger] set.variants@[j].tag() != name@
        },
        None => {
            &&& set.variants@[i].fallback
            &&& forall|j: int| 0 <= j < i ==> !(#[trigger] set.variants@[j]).fallback
        },
    }
}

/// The contract of `resolve_variant`.
pub open spec fn resolve_post(
    intent_name: Option<String>,
    set: VariantSet,
    r: Result<usize, DecodeError>,
) -> bool {
    match r {
        Ok(i) => selects(intent_name, set, i as int),
        Err(e) => match intent_name {
            Some(name) => {
                &&& e == DecodeError::UnknownIntent(name)
                &&& forall|j: int|
                    0 <= j < set.variants@.len() ==> #[trigger] set.variants@[j].tag() != name@
            },
            None => {
                &&& e == DecodeError::NoFallbackVariant
                &&& forall|j: int|
                    0 <= j < set.variants@.len() ==> !(#[trigger] set.variants@[j]).fallback
            },
        },
    }
}

/// The contract of `decode`: a success selects a variant and decodes its
/// declared fields from the parameter bag (none for an `Empty` variant,
/// whatever the bag holds); a failure is exactly one of the three causes —
/// a reported name matching no tag, no reported name and no fallback, or an
/// unsatisfied field of the selected variant.
pub open spec fn decode_post(
    raw: DetectIntentResponse,
    set: VariantSet,
    r: Result<DecodedIntent, DecodeError>,
) -> bool {
    let bag = raw.parameters.bag();
    match r {
        Ok(d) => {
            &&& selects(raw.intent_name, set, d.variant as int)
            &&& match set.variants@[d.variant as int].payload {
                PayloadKind::Empty => d.fields@.len() == 0,
                PayloadKind::Fields(fds) => decode_fields_post(fds@, bag, Ok(d.fields)),
            }
        },
        Err(e) => {
            ||| {
                &&& raw.intent_name matches Some(name)
                &&& e == DecodeError::UnknownIntent(name)
                &&& forall|j: int|
                    0 <= j < set.variants@.len() ==> #[trigger] set.variants@[j].tag() != name@
            }
            ||| {
                &&& raw.intent_name is None
                &&& e == DecodeError::NoFallbackVariant
                &&& forall|j: int|
                    0 <= j < set.variants@.len() ==> !(#[trigger] set.variants@[j]).fallback
            }
            ||| exists|i: int|
                {
                    &&& #[trigger] selects(raw.intent_name, set, i)
                    &&& set.variants@[i].payload matches PayloadKind::Fields(fds)
                    &&& decode_fields_post(fds@, bag, Err(e))
                }
        },
    }
}

/// Resolves the selection tag against the set's canonical tags. A reported
/// name must match a tag exactly; an unmatched name is an error, never
/// silently degraded to the fallback. An absent name selects the fallback
/// variant, if the set has one.
pub fn resolve_variant(intent_name: &Option<String>, set: &VariantSet) -> (r: Result<
    usize,
    DecodeError,
>)
    ensures
        resolve_post(*intent_name, *set, r),
{
    let n = set.variants.len();
    match intent_name {
        Some(name) => {
            let mut i: usize = 0;
            while i < n
                invariant
                    n == set.variants@.len(),
                    i <= n,
                    *intent_name matches Some(nm) && nm == name,
                    forall|j: int| 0 <= j < i ==> #[trigger] set.variants@[j].tag() != name@,
                decreases n - i,
            {
                let t = canonical_tag(set.variants[i].ident.as_str());
                if t.eq(name) {
                    return Ok(i);
                }
                i = i + 1;
            }
            Err(DecodeError::UnknownIntent(name.clone()))
        },
        None => {
            let mut i: usize = 0;
            while i < n
                invariant
                    n == set.variants@.len(),
                    i <= n,
                    *intent_name is None,
                    forall|j: int| 0 <= j < i ==> !(#[trigger] set.variants@[j]).fallback,
                decreases n - i,
            {
                if set.variants[i].fallback {
                    return Ok(i);
                }
                i = i + 1;
            }
            Err(DecodeError::NoFallbackVariant)
        },
    }
}

/// Coerces one wire value to a declared field kind.
fn coerce_field(kind: &FieldKind, v: &Value) -> (r: Option<FieldValue>)
    ensures
        r == spec_coerce(*kind, *v),
{
    match (kind, v) {
        (FieldKind::Text, Value::Str(s)) => Some(FieldValue::Text(s.clone())),
        (FieldKind::Number, Value::Num(s)) => Some(FieldValue::Number(s.clone())),
        (FieldKind::Boolean, Value::Bool(b)) => Some(FieldValue::Boolean(*b)),
        _ => None,
    }
}

/// Decodes the parameter bag as a record against the declared field set, in
/// declaration order, stopping at the first unsatisfied field.
pub fn decode_fields(fields: &Vec<FieldDescriptor>, bag: &Value) -> (r: Result<
    Vec<FieldValue>,
    DecodeError,
>)
    ensures
        decode_fields_post(fields@, *bag, r),
{
    let m = fields.len();
    let mut vals: Vec<FieldValue> = Vec::new();
    let mut k: usize = 0;
    while k < m
        invariant
            m == fields@.len(),
            k <= m,
            vals@.len() == k,
            forall|j: int| 0 <= j < k ==> field_ok(*bag, #[trigger] fields@[j]),
            forall|j: int| 0 <= j < k ==> #[trigger] vals@[j] == field_val(*bag, fields@[j]),
        decreases m - k,
    {
        let fd = &fields[k];
        match bag.get(&fd.name) {
            None => {
                return Err(DecodeError::MissingField(fd.name.clone()));
            },
            Some(v) => match coerce_field(&fd.kind, v) {
                None => {
                    return Err(DecodeError::FieldTypeMismatch(fd.name.clone()));
                },
                Some(fv) => {
                    vals.push(fv);
                },
            },
        }
        k = k + 1;
    }
    Ok(vals)
}

/// Decodes one response against the caller's variant set: resolves the
/// selection tag, then populates the selected variant from the parameter
/// bag. An `Empty` variant discards the bag unread; decoding is not partial,
/// the first error aborts the whole decode.
pub fn decode(raw: &DetectIntentResponse, set: &VariantSet) -> (r: Result<
    DecodedIntent,
    DecodeError,
>)
    ensures
        decode_post(*raw, *set, r),
{
    let idx = match resolve_variant(&raw.intent_name, set) {
        Ok(i) => i,
        Err(e) => {
            return Err(e);
        },
    };
    match &set.variants[idx].payload {
        PayloadKind::Empty => Ok(DecodedIntent { variant: idx, fields: Vec::new() }),
        PayloadKind::Fields(fds) => match decode_fields(fds, &raw.parameters.0) {
            Ok(vals) => Ok(DecodedIntent { variant: idx, fields: vals }),
            Err(e) => {
                proof {
                    assert(selects(raw.intent_name, *set, idx as int));
                }
                Err(e)
            },
        },
    }
}

/// The selection tag picks at most one index.
pub proof fn lemma_selects_unique(intent_name: Option<String>, set: VariantSet, i: int, j: int)
    requires
        selects(intent_name, set, i),
        selects(intent_name, set, j),
    ensures
        i == j,
{
    match intent_name {
        Some(name) => {
            if i < j {
                assert(set.variants@[i].tag() != name@);
            } else if j < i {
                assert(set.variants@[j].tag() != name@);
            }
        },
        None => {
            if i < j {
                assert(!set.variants@[i].fallback);
            } else if j < i {
                assert(!set.variants@[j].fallback);
            }
        },
    }
}

/// When every fallback variant of the set carries no fields, a response
/// that reports no intent name always decodes successfully and selects the
/// fallback variant, whatever the parameter bag holds.
pub proof fn lemma_no_intent_selects_fallback(
    raw: DetectIntentResponse,
    set: VariantSet,
    r: Result<DecodedIntent, DecodeError>,
)
    requires
        decode_post(raw, set, r),
        raw.intent_name is None,
        set.has_fallback(),
        forall|i: int|
            0 <= i < set.variants@.len() && (#[trigger] set.variants@[i]).fallback
                ==> set.variants@[i].payload is Empty,
    ensures
        r matches Ok(d) && set.variants@[d.variant as int].fallback && d.fields@.len() == 0,
{
    match r {
        Ok(d) => {
            assert(set.variants@[d.variant as int].fallback);
        },
        Err(e) => {
            let w = choose|i: int|
                0 <= i < set.variants@.len() && #[trigger] set.variants@[i].fallback;
            assert(set.variants@[w].fallback);
            assert(false);
        },
    }
}

/// A reported intent name that matches no variant's canonical tag fails
/// with `UnknownIntent` carrying that very name; it is never silently
/// absorbed by the fallback variant.
pub proof fn lemma_unmatched_name_never_falls_back(
    raw: DetectIntentResponse,
    set: VariantSet,
    r: Result<DecodedIntent, DecodeError>,
    name: String,
)
    requires
        decode_post(raw, set, r),
        raw.intent_name == Some(name),
        forall|j: int|
            0 <= j < set.variants@.len() ==> #[trigger] set.variants@[j].tag() != name@,
    ensures
        r == Err::<DecodedIntent, DecodeError>(DecodeError::UnknownIntent(name)),
{
    match r {
        Ok(d) => {
            assert(selects(raw.intent_name, set, d.variant as int));
            assert(set.variants@[d.variant as int].tag() != name@);
            assert(false);
        },
        Err(e) => {
        },
    }
}

/// When the selection tag picks an `Empty` variant, decoding succeeds with
/// no fields, however many unrelated entries the parameter bag holds.
pub proof fn lemma_empty_variant_ignores_parameters(
    raw: DetectIntentResponse,
    set: VariantSet,
    r: Result<DecodedIntent, DecodeError>,
    i: int,
)
    requires
        decode_post(raw, set, r),
        selects(raw.intent_name, set, i),
        set.variants@[i].payload is Empty,
    ensures
        r matches Ok(d) && d.variant as int == i && d.fields@.len() == 0,
{
    match r {
        Ok(d) => {
            lemma_selects_unique(raw.intent_name, set, d.variant as int, i);
        },
        Err(e) => {
            if raw.intent_name is Some {
                assert(set.variants@[i].tag() == raw.intent_name->0@);
            } else {
                assert(set.variants@[i].fallback);
            }
            let w = choose|w: int|
                {
                    &&& #[trigger] selects(raw.intent_name, set, w)
                    &&& set.variants@[w].payload matches PayloadKind::Fields(fds)
                    &&& decode_fields_post(fds@, raw.parameters.bag(), Err(e))
                };
            lemma_selects_unique(raw.intent_name, set, w, i);
            assert(false);
        },
    }
}

/// Removing a declared field from the parameter bag turns a successful
/// field decode into `MissingField` naming that field.
pub proof fn lemma_missing_field(
    fields: Seq<FieldDescriptor>,
    b1: Value,
    b2: Value,
    r1: Result<Vec<FieldValue>, DecodeError>,
    r2: Result<Vec<FieldValue>, DecodeError>,
    k: int,
)
    requires
        decode_fields_post(fields, b1, r1),
        r1 is Ok,
        decode_fields_post(fields, b2, r2),
        0 <= k < fields.len(),
        b2.lookup(fields[k].name@) is None,
        forall|j: int|
            0 <= j < fields.len() && j != k ==> b2.lookup((#[trigger] fields[j]).name@)
                == b1.lookup(fields[j].name@),
    ensures
        r2 matches Err(e) && e matches DecodeError::MissingField(n) && n@ == fields[k].name@,
{
    match r2 {
        Ok(_) => {
            assert(field_ok(b2, fields[k]));
            assert(false);
        },
        Err(e) => {
            let k2 = choose|k2: int|
                {
                    &&& 0 <= k2 < fields.len()
                    &&& !field_ok(b2, #[trigger] fields[k2])
                    &&& forall|j: int| 0 <= j < k2 ==> field_ok(b2, #[trigger] fields[j])
                    &&& e == field_err(b2, fields[k2])
                };
            if k2 != k {
                assert(field_ok(b1, fields[k2]));
                assert(b2.lookup(fields[k2].name@) == b1.lookup(fields[k2].name@));
                assert(false);
            }
            assert(e == field_err(b2, fields[k]));
        },
    }
}

/// Changing a declared field's value to one of an incompatible kind turns a
/// successful field decode into `FieldTypeMismatch` naming that field.
pub proof fn lemma_field_type_mismatch(
    fields: Seq<FieldDescriptor>,
    b1: Value,
    b2: Value,
    r1: Result<Vec<FieldValue>, DecodeError>,
    r2: Result<Vec<FieldValue>, DecodeError>,
    k: int,
    v: Value,
)
    requires
        decode_fields_post(fields, b1, r1),
        r1 is Ok,
        decode_fields_post(fields, b2, r2),
        0 <= k < fields.len(),
        b2.lookup(fields[k].name@) == Some(v),
        spec_coerce(fields[k].kind, v) is None,
        forall|j: int|
            0 <= j < fields.len() && j != k ==> b2.lookup((#[trigger] fields[j]).name@)
                == b1.lookup(fields[j].name@),
    ensures
        r2 matches Err(e) && e matches DecodeError::FieldTypeMismatch(n) && n@ == fields[k].name@,
{
    match r2 {
        Ok(_) => {
            assert(field_ok(b2, fields[k]));
            assert(false);
        },
        Err(e) => {
            let k2 = choose|k2: int|
                {
                    &&& 0 <= k2 < fields.len()
                    &&& !field_ok(b2, #[trigger] fields[k2])
                    &&& forall|j: int| 0 <= j < k2 ==> field_ok(b2, #[trigger] fields[j])
                    &&& e == field_err(b2, fields[k2])
                };
            if k2 != k {
                assert(field_ok(b1, fields[k2]));
                assert(b2.lookup(fields[k2].name@) == b1.lookup(fields[k2].name@));
                assert(false);
            }
            assert(e == field_err(b2, fields[k]));
        },
    }
}

/// A bag entry whose key no declared field uses is invisible to the
/// declared lookups.
pub proof fn lemma_undeclared_entry_invisible(
    fields: Seq<FieldDescriptor>,
    b1: Value,
    b2: Value,
    extra: (String, Value),
)
    requires
        b2.entries() == b1.entries().push(extra),
        forall|j: int| 0 <= j < fields.len() ==> (#[trigger] fields[j]).name@ != extra.0@,
    ensures
        forall|j: int|
            0 <= j < fields.len() ==> b2.lookup((#[trigger] fields[j]).name@) == b1.lookup(
                fields[j].name@,
            ),
{
    assert forall|j: int|
        0 <= j < fields.len() implies b2.lookup((#[trigger] fields[j]).name@) == b1.lookup(
        fields[j].name@,
    ) by {
        crate::value::lemma_lookup_snoc(b1.entries(), extra, fields[j].name@);
    }
}

/// Adding an entry the selected variant does not declare never turns a
/// successful field decode into a failure: the outcome is the same decoded
/// record.
pub proof fn lemma_extra_field_preserves_success(
    fields: Seq<FieldDescriptor>,
    b1: Value,
    b2: Value,
    r1: Result<Vec<FieldValue>, DecodeError>,
    r2: Result<Vec<FieldValue>, DecodeError>,
)
    requires
        decode_fields_post(fields, b1, r1),
        r1 is Ok,
        decode_fields_post(fields, b2, r2),
        forall|j: int|
            0 <= j < fields.len() ==> b2.lookup((#[trigger] fields[j]).name@) == b1.lookup(
                fields[j].name@,
            ),
    ensures
        r2 is Ok,
        r2->Ok_0@ == r1->Ok_0@,
{
    match r2 {
        Ok(v2) => {
            assert(r2->Ok_0@ =~= r1->Ok_0@);
        },
        Err(e) => {
            let k2 = choose|k2: int|
                {
                    &&& 0 <= k2 < fields.len()
                    &&& !field_ok(b2, #[trigger] fields[k2])
                    &&& forall|j: int| 0 <= j < k2 ==> field_ok(b2, #[trigger] fields[j])
                    &&& e == field_err(b2, fields[k2])
                };
            assert(field_ok(b1, fields[k2]));
            assert(false);
        },
    }
}

} // verus!
