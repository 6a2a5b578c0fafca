//! The raw override payload: parsing a serialized document through
//! serde_json, carrying it as a plain document, and converting it into
//! the structured value a schema calls for.

use vstd::prelude::*;

use crate::clap::spec_find_member;
use crate::value::scalar_view;
use crate::value::scalars_view;
use crate::value::spec_zero_scalar;
use crate::value::CResult;
use crate::value::DecodeError;
use crate::value::GScalar;
use crate::value::GVal;
use crate::value::Scalar;
use crate::value::StructuredValue;
use crate::visit::spec_flat_kind;
use crate::visit::spec_kind_emits;
use crate::visit::ScalarKind;
use crate::visit::TCFieldType;
use crate::visit::TCStructField;

verus! {

/// The parsed document type of serde_json, declared so that values of it
/// can pass through signatures; it stays opaque here.
#[verifier::external_type_specification]
#[verifier::external_body]
pub struct ExJsonValue(serde_json::Value);

/// What parsing an override can come to: a document, or a failure. The
/// parse wrapper's contract names its outcome so that callers can be
/// pinned to it exactly.
#[verifier::ext_equal]
pub enum GParse {
    Parsed(GJson),
    Failed,
}

/// The outcome of parsing an override payload: what serde_json makes of
/// this exact text, carried over as a plain document. The result depends
/// on the payload text alone.
pub uninterp spec fn spec_parse_json(s: Seq<char>) -> GParse;

/// Relies on serde_json::from_str: parse a serialized document and carry
/// it over as a plain document, or hand back the parser's failure text.
/// The parse is a function of the payload text alone, so its outcome is
/// named: callers know exactly which document (or failure) this payload
/// yields, though not what it looks like.
#[verifier::external_body]
fn parse_json(s: &str) -> (r: Result<JsonDoc, String>)
    ensures
        match r {
            Result::Ok(doc) => spec_parse_json(s@) == GParse::Parsed(jd_view(doc)),
            Result::Err(_) => spec_parse_json(s@) == GParse::Failed,
        },
{
    serde_json::from_str::<serde_json::Value>(s).map(|v| raw_to_doc(&v)).map_err(|e| e.to_string())
}

/// Relies on serde_json::Value's variants: carry a parsed value over as a
/// plain document, one variant arm each. A number that is neither a signed
/// nor an unsigned integer is kept as such and rejected during conversion.
#[verifier::external_body]
fn raw_to_doc(v: &serde_json::Value) -> JsonDoc {
    match v {
        serde_json::Value::Null => JsonDoc::Null,
        serde_json::Value::Bool(b) => JsonDoc::Bool(*b),
        serde_json::Value::String(s) => JsonDoc::Str(s.clone()),
        serde_json::Value::Number(n) => n.as_i64().map(JsonDoc::Int).or_else(
            || n.as_u64().map(JsonDoc::UInt),
        ).unwrap_or(JsonDoc::OtherNumber),
        serde_json::Value::Array(items) => JsonDoc::Array(items.iter().map(raw_to_doc).collect()),
        serde_json::Value::Object(entries) => JsonDoc::Object(
            entries.iter().map(|(k, x)| (k.clone(), raw_to_doc(x))).collect(),
        ),
    }
}

/// A parsed override document held as plain values. A number is kept as a
/// signed or unsigned integer; any other number survives only as a marker
/// that conversion rejects.
#[derive(Debug, PartialEq, Eq)]
pub enum JsonDoc {
    Null,
    Bool(bool),
    Int(i64),
    UInt(u64),
    OtherNumber,
    Str(String),
    Array(Vec<JsonDoc>),
    Object(Vec<(String, JsonDoc)>),
}

/// The mathematical content of a parsed override document.
#[verifier::ext_equal]
pub enum GJson {
    Null,
    Bool(bool),
    Int(i64),
    UInt(u64),
    OtherNumber,
    Str(Seq<char>),
    Array(Seq<GJson>),
    Object(Seq<(Seq<char>, GJson)>),
}

/// The mathematical content of a document.
pub open spec fn jd_view(d: JsonDoc) -> GJson
    decreases d,
{
    match d {
        JsonDoc::Null => GJson::Null,
        JsonDoc::Bool(b) => GJson::Bool(b),
        JsonDoc::Int(x) => GJson::Int(x),
        JsonDoc::UInt(u) => GJson::UInt(u),
        JsonDoc::OtherNumber => GJson::OtherNumber,
        JsonDoc::Str(s) => GJson::Str(s@),
        JsonDoc::Array(items) => GJson::Array(jd_items_view(items@)),
        JsonDoc::Object(entries) => GJson::Object(jd_entries_view(entries@)),
    }
}

/// The mathematical content of a document list.
pub open spec fn jd_items_view(s: Seq<JsonDoc>) -> Seq<GJson>
    decreases s,
{
    if s.len() == 0 {
        Seq::empty()
    } else {
        jd_items_view(s.drop_last()).push(jd_view(s.last()))
    }
}

/// The mathematical content of an object's entries.
pub open spec fn jd_entries_view(s: Seq<(String, JsonDoc)>) -> Seq<(Seq<char>, GJson)>
    decreases s,
{
    if s.len() == 0 {
        Seq::empty()
    } else {
        jd_entries_view(s.drop_last()).push((s.last().0@, jd_view(s.last().1)))
    }
}

/// The document views are pointwise.
pub proof fn lemma_jd_views(s: Seq<JsonDoc>, e: Seq<(String, JsonDoc)>)
    ensures
        jd_items_view(s).len() == s.len(),
        forall|i: int| 0 <= i < s.len() ==> #[trigger] jd_items_view(s)[i] == jd_view(s[i]),
        jd_entries_view(e).len() == e.len(),
        forall|i: int|
            0 <= i < e.len() ==> #[trigger] jd_entries_view(e)[i] == (e[i].0@, jd_view(e[i].1)),
    decreases s.len() + e.len(),
{
    if s.len() > 0 {
        lemma_jd_views(s.drop_last(), e);
    } else if e.len() > 0 {
        lemma_jd_views(s, e.drop_last());
    }
}

/// The scalar a document coerces to under a field's kind: strings for
/// string fields, integers range-checked into the field's width, booleans
/// for boolean fields. Floating-point fields take no override value.
pub open spec fn spec_json_scalar(k: ScalarKind, d: GJson) -> Option<GScalar> {
    match d {
        GJson::Str(s) => if k is Str {
            Option::Some(GScalar::Str(s))
        } else {
            Option::None
        },
        GJson::Bool(b) => if k is Bool {
            Option::Some(GScalar::Bool(b))
        } else {
            Option::None
        },
        GJson::Int(x) => match k {
            ScalarKind::I32 => if i32::MIN <= x <= i32::MAX {
                Option::Some(GScalar::I32(x as i32))
            } else {
                Option::None
            },
            ScalarKind::I64 => Option::Some(GScalar::I64(x)),
            ScalarKind::U8 => if 0 <= x <= u8::MAX {
                Option::Some(GScalar::U8(x as u8))
            } else {
                Option::None
            },
            _ => Option::None,
        },
        GJson::UInt(u) => match k {
            ScalarKind::I32 => if u <= i32::MAX {
                Option::Some(GScalar::I32(u as i32))
            } else {
                Option::None
            },
            ScalarKind::I64 => if u <= i64::MAX {
                Option::Some(GScalar::I64(u as i64))
            } else {
                Option::None
            },
            ScalarKind::U8 => if u <= u8::MAX {
                Option::Some(GScalar::U8(u as u8))
            } else {
                Option::None
            },
            _ => Option::None,
        },
        _ => Option::None,
    }
}

/// First-match lookup among an object's entries.
pub open spec fn spec_jd_get(s: Seq<(Seq<char>, GJson)>, k: Seq<char>) -> Option<GJson>
    decreases s,
{
    if s.len() == 0 {
        Option::None
    } else if s[0].0 == k {
        Option::Some(s[0].1)
    } else {
        spec_jd_get(s.drop_first(), k)
    }
}

/// Converting an override document against a schema node. A missing or
/// null position of an optional field is its absent state; a missing
/// field elsewhere takes its zero value; an object under a
/// mutually-exclusive group must set exactly one member, anything else is
/// a conflict naming the group; any other shape disagreement is a
/// structural mismatch.
pub open spec fn spec_convert_json(n: TCFieldType, d: Option<GJson>) -> CResult
    decreases n,
{
    match n {
        TCFieldType::Primitive { field_type, .. } => {
            if field_type is List {
                match d {
                    Option::None => CResult::Converted(GVal::List(Seq::empty())),
                    Option::Some(GJson::Array(items)) => {
                        if spec_kind_emits(field_type) {
                            spec_convert_json_items(spec_flat_kind(field_type), items)
                        } else {
                            CResult::Invalid
                        }
                    }
                    Option::Some(_) => CResult::Invalid,
                }
            } else {
                match d {
                    Option::None => CResult::Converted(
                        GVal::Scalar(spec_zero_scalar(spec_flat_kind(field_type))),
                    ),
                    Option::Some(dd) => match spec_json_scalar(spec_flat_kind(field_type), dd) {
                        Option::Some(s) => CResult::Converted(GVal::Scalar(s)),
                        Option::None => CResult::Invalid,
                    },
                }
            }
        }
        TCFieldType::Option(inner) => match d {
            Option::None => CResult::Converted(GVal::Null),
            Option::Some(GJson::Null) => CResult::Converted(GVal::Null),
            Option::Some(dd) => spec_convert_json(*inner, Option::Some(dd)),
        },
        TCFieldType::Struct { fields, .. } => match d {
            Option::None => spec_convert_json_fields(fields@, Seq::empty()),
            Option::Some(GJson::Object(entries)) => spec_convert_json_fields(fields@, entries),
            Option::Some(_) => CResult::Invalid,
        },
        TCFieldType::OneOf { name, members } => match d {
            Option::None => CResult::Converted(GVal::Null),
            Option::Some(GJson::Null) => CResult::Converted(GVal::Null),
            Option::Some(GJson::Object(entries)) => {
                if entries.len() != 1 {
                    CResult::Conflict(name@)
                } else {
                    let k = entries[0].0;
                    let j = spec_find_member(members@, k);
                    if 0 <= j < members@.len() {
                        match spec_convert_json(
                            members@[j].field_type,
                            Option::Some(entries[0].1),
                        ) {
                            CResult::Converted(v) => CResult::Converted(
                                GVal::OneOf(k, Box::new(v)),
                            ),
                            CResult::Conflict(g) => CResult::Conflict(g),
                            CResult::Invalid => CResult::Invalid,
                        }
                    } else {
                        CResult::Invalid
                    }
                }
            }
            Option::Some(_) => CResult::Invalid,
        },
        TCFieldType::Unknown(_) => CResult::Converted(GVal::Null),
    }
}

/// Converting an array against a repeated field's element kind.
pub open spec fn spec_convert_json_items(k: ScalarKind, items: Seq<GJson>) -> CResult
    decreases items,
{
    if items.len() == 0 {
        CResult::Converted(GVal::List(Seq::empty()))
    } else {
        match spec_json_scalar(k, items[0]) {
            Option::Some(s) => match spec_convert_json_items(k, items.drop_first()) {
                CResult::Converted(GVal::List(tail)) => CResult::Converted(
                    GVal::List(seq![s] + tail),
                ),
                CResult::Converted(_) => CResult::Invalid,
                CResult::Conflict(g) => CResult::Conflict(g),
                CResult::Invalid => CResult::Invalid,
            },
            Option::None => CResult::Invalid,
        }
    }
}

/// Converting a struct's fields against an object's entries.
pub open spec fn spec_convert_json_fields(
    fs: Seq<TCStructField>,
    entries: Seq<(Seq<char>, GJson)>,
) -> CResult
    decreases fs,
{
    if fs.len() == 0 {
        CResult::Converted(GVal::Struct(Seq::empty()))
    } else {
        let head = spec_convert_json(fs[0].field_type, spec_jd_get(entries, fs[0].field_name@));
        match head {
            CResult::Converted(v) => match spec_convert_json_fields(fs.drop_first(), entries) {
                CResult::Converted(GVal::Struct(tail)) => CResult::Converted(
                    GVal::Struct(seq![(fs[0].field_name@, v)] + tail),
                ),
                CResult::Converted(_) => CResult::Invalid,
                CResult::Conflict(g) => CResult::Conflict(g),
                CResult::Invalid => CResult::Invalid,
            },
            CResult::Conflict(g) => CResult::Conflict(g),
            CResult::Invalid => CResult::Invalid,
        }
    }
}

/// The mathematical content of an optional borrowed document.
pub open spec fn jd_opt_view(d: Option<&JsonDoc>) -> Option<GJson> {
    match d {
        Option::Some(x) => Option::Some(jd_view(*x)),
        Option::None => Option::None,
    }
}

/// The scalar a document coerces to under a field's kind.
fn json_scalar(k: ScalarKind, d: &JsonDoc) -> (r: Option<Scalar>)
    ensures
        match r {
            Option::Some(s) => spec_json_scalar(k, jd_view(*d)) == Option::Some(scalar_view(s)),
            Option::None => spec_json_scalar(k, jd_view(*d)) is None,
        },
{
    match d {
        JsonDoc::Str(s) => match k {
            ScalarKind::Str => Some(Scalar::Str(s.clone())),
            _ => None,
        },
        JsonDoc::Bool(b) => match k {
            ScalarKind::Bool => Some(Scalar::Bool(*b)),
            _ => None,
        },
        JsonDoc::Int(x) => match k {
            ScalarKind::I32 => if i32::MIN as i64 <= *x && *x <= i32::MAX as i64 {
                Some(Scalar::I32(*x as i32))
            } else {
                None
            },
            ScalarKind::I64 => Some(Scalar::I64(*x)),
            ScalarKind::U8 => if 0 <= *x && *x <= u8::MAX as i64 {
                Some(Scalar::U8(*x as u8))
            } else {
                None
            },
            _ => None,
        },
        JsonDoc::UInt(u) => match k {
            ScalarKind::I32 => if *u <= i32::MAX as u64 {
                Some(Scalar::I32(*u as i32))
            } else {
                None
            },
            ScalarKind::I64 => if *u <= i64::MAX as u64 {
                Some(Scalar::I64(*u as i64))
            } else {
                None
            },
            ScalarKind::U8 => if *u <= u8::MAX as u64 {
                Some(Scalar::U8(*u as u8))
            } else {
                None
            },
            _ => None,
        },
        _ => None,
    }
}

/// The first entry of an object carrying the given name.
fn jd_get<'a>(entries: &'a Vec<(String, JsonDoc)>, name: &String) -> (r: Option<&'a JsonDoc>)
    ensures
        match r {
            Option::Some(d) => spec_jd_get(jd_entries_view(entries@), name@) == Option::Some(
                jd_view(*d),
            ),
            Option::None => spec_jd_get(jd_entries_view(entries@), name@) is None,
        },
{
    proof {
        lemma_jd_views(Seq::<JsonDoc>::empty(), entries@);
        lemma_jd_get_skip(jd_entries_view(entries@), name@, 0);
    }
    let mut i: usize = 0;
    while i < entries.len()
        invariant
            i <= entries@.len(),
            spec_jd_get(jd_entries_view(entries@), name@) == spec_jd_get(
                jd_entries_view(entries@).skip(i as int),
                name@,
            ),
        decreases entries@.len() - i,
    {
        let e = &entries[i];
        proof {
            lemma_jd_views(Seq::<JsonDoc>::empty(), entries@);
            assert(jd_entries_view(entries@).skip(i as int)[0] == (e.0@, jd_view(e.1)));
        }
        if e.0 == *name {
            return Some(&e.1);
        }
        proof {
            assert(jd_entries_view(entries@).skip(i as int).drop_first()
                =~= jd_entries_view(entries@).skip(i as int + 1));
        }
        i += 1;
    }
    proof {
        assert(jd_entries_view(entries@).skip(i as int).len() == 0);
    }
    None
}

/// Skipping nothing changes nothing.
proof fn lemma_jd_get_skip(s: Seq<(Seq<char>, GJson)>, k: Seq<char>, i: int)
    requires
        i == 0,
    ensures
        spec_jd_get(s, k) == spec_jd_get(s.skip(i), k),
{
    assert(s.skip(0) =~= s);
}

/// A struct value extended at the front by already-converted fields.
pub open spec fn spec_jprepend(front: Seq<(Seq<char>, GVal)>, r: CResult) -> CResult {
    match r {
        CResult::Converted(GVal::Struct(tail)) => CResult::Converted(GVal::Struct(front + tail)),
        CResult::Converted(_) => CResult::Invalid,
        CResult::Conflict(g) => CResult::Conflict(g),
        CResult::Invalid => CResult::Invalid,
    }
}

/// A list value extended at the front by already-converted elements.
pub open spec fn spec_jprepend_items(front: Seq<GScalar>, r: CResult) -> CResult {
    match r {
        CResult::Converted(GVal::List(tail)) => CResult::Converted(GVal::List(front + tail)),
        CResult::Converted(_) => CResult::Invalid,
        CResult::Conflict(g) => CResult::Conflict(g),
        CResult::Invalid => CResult::Invalid,
    }
}

/// Convert an array against a repeated field's element kind.
fn convert_json_items(k: ScalarKind, items: &Vec<JsonDoc>) -> (r: Result<
    Vec<Scalar>,
    DecodeError,
>)
    ensures
        crate::clap::spec_result_matches(
            match r {
                Result::Ok(v) => Result::Ok(StructuredValue::List(v)),
                Result::Err(e) => Result::Err(e),
            },
            spec_convert_json_items(k, jd_items_view(items@)),
        ),
{
    let ghost whole = jd_items_view(items@);
    let mut out: Vec<Scalar> = Vec::new();
    let mut i: usize = 0;
    proof {
        lemma_jd_views(items@, Seq::<(String, JsonDoc)>::empty());
        assert(whole.skip(0) =~= whole);
        assert(scalars_view(out@) =~= Seq::<GScalar>::empty());
    }
    while i < items.len()
        invariant
            i <= items@.len(),
            whole == jd_items_view(items@),
            whole.len() == items@.len(),
            forall|j: int| 0 <= j < items@.len() ==> #[trigger] whole[j] == jd_view(items@[j]),
            spec_convert_json_items(k, whole) == spec_jprepend_items(
                scalars_view(out@),
                spec_convert_json_items(k, whole.skip(i as int)),
            ),
        decreases items@.len() - i,
    {
        let ghost rest = whole.skip(i as int);
        proof {
            assert(rest[0] == whole[i as int]);
            assert(rest.drop_first() =~= whole.skip(i as int + 1));
        }
        match json_scalar(k, &items[i]) {
            Option::Some(s) => {
                let ghost front = scalars_view(out@);
                let ghost gs = scalar_view(s);
                let ghost pre = out@;
                out.push(s);
                proof {
                    assert(scalars_view(out@) =~= front.push(gs));
                    match spec_convert_json_items(k, whole.skip(i as int + 1)) {
                        CResult::Converted(GVal::List(tail)) => {
                            assert(front + (seq![gs] + tail) =~= front.push(gs) + tail);
                        }
                        _ => {}
                    }
                }
            }
            Option::None => {
                return Err(DecodeError::ValueValidation {
                    message: "a list element does not fit the field's kind".to_owned(),
                });
            }
        }
        i += 1;
    }
    proof {
        assert(whole.skip(items@.len() as int).len() == 0);
        assert(scalars_view(out@) + Seq::<GScalar>::empty() =~= scalars_view(out@));
    }
    Ok(out)
}

/// Convert an override document against a schema node into the structured
/// value the schema calls for.
pub fn convert_json(n: &TCFieldType, d: Option<&JsonDoc>) -> (r: Result<
    StructuredValue,
    DecodeError,
>)
    ensures
        crate::clap::spec_result_matches(r, spec_convert_json(*n, jd_opt_view(d))),
    decreases *n,
{
    match n {
        TCFieldType::Primitive { field_type, .. } => {
            if field_type.is_vec() {
                match d {
                    Option::None => {
                        let items: Vec<Scalar> = Vec::new();
                        proof {
                            assert(scalars_view(items@) =~= Seq::<GScalar>::empty());
                        }
                        Ok(StructuredValue::List(items))
                    }
                    Option::Some(JsonDoc::Array(items)) => {
                        if field_type.is_primitive_vec() {
                            let (kind, _) = field_type.get_clap_value_parse();
                            match convert_json_items(kind, items) {
                                Result::Ok(v) => Ok(StructuredValue::List(v)),
                                Result::Err(e) => Err(e),
                            }
                        } else {
                            Err(DecodeError::ValueValidation {
                                message: "a value was supplied for an unrepresentable list".to_owned(),
                            })
                        }
                    }
                    Option::Some(_) => Err(DecodeError::ValueValidation {
                        message: "a repeated field needs an array".to_owned(),
                    }),
                }
            } else {
                match d {
                    Option::None => {
                        let (kind, _) = field_type.get_clap_value_parse();
                        Ok(StructuredValue::Scalar(crate::clap::zero_scalar(kind)))
                    }
                    Option::Some(dd) => {
                        let (kind, _) = field_type.get_clap_value_parse();
                        match json_scalar(kind, dd) {
                            Option::Some(s) => Ok(StructuredValue::Scalar(s)),
                            Option::None => Err(DecodeError::ValueValidation {
                                message: "a value does not fit the field's kind".to_owned(),
                            }),
                        }
                    }
                }
            }
        }
        TCFieldType::Option(inner) => match d {
            Option::None => Ok(StructuredValue::Null),
            Option::Some(JsonDoc::Null) => Ok(StructuredValue::Null),
            Option::Some(dd) => convert_json(inner, Some(dd)),
        },
        TCFieldType::Struct { fields, .. } => match d {
            Option::None => {
                let entries: Vec<(String, JsonDoc)> = Vec::new();
                proof {
                    assert(jd_entries_view(entries@) =~= Seq::<(Seq<char>, GJson)>::empty());
                }
                convert_json_fields(fields, &entries)
            }
            Option::Some(JsonDoc::Object(entries)) => convert_json_fields(fields, entries),
            Option::Some(_) => Err(DecodeError::ValueValidation {
                message: "a nested message needs an object".to_owned(),
            }),
        },
        TCFieldType::OneOf { name, members } => match d {
            Option::None => Ok(StructuredValue::Null),
            Option::Some(JsonDoc::Null) => Ok(StructuredValue::Null),
            Option::Some(JsonDoc::Object(entries)) => {
                proof {
                    lemma_jd_views(Seq::<JsonDoc>::empty(), entries@);
                }
                if entries.len() != 1 {
                    Err(DecodeError::ArgumentConflict { group: name.clone() })
                } else {
                    let e = &entries[0];
                    proof {
                        assert(jd_entries_view(entries@)[0] == (e.0@, jd_view(e.1)));
                    }
                    match crate::clap::find_member(members, &e.0) {
                        Option::Some(j) => {
                            match convert_json(&members[j].field_type, Some(&e.1)) {
                                Result::Ok(v) => Ok(
                                    StructuredValue::OneOf(e.0.clone(), Box::new(v)),
                                ),
                                Result::Err(err) => Err(err),
                            }
                        }
                        Option::None => Err(DecodeError::ValueValidation {
                            message: "a group value names no member of the group".to_owned(),
                        }),
                    }
                }
            }
            Option::Some(_) => Err(DecodeError::ValueValidation {
                message: "a group needs an object".to_owned(),
            }),
        },
        TCFieldType::Unknown(_) => Ok(StructuredValue::Null),
    }
}

/// Convert a struct's fields against an object's entries.
fn convert_json_fields(fields: &Vec<TCStructField>, entries: &Vec<(String, JsonDoc)>) -> (r:
    Result<StructuredValue, DecodeError>)
    ensures
        crate::clap::spec_result_matches(
            r,
            spec_convert_json_fields(fields@, jd_entries_view(entries@)),
        ),
    decreases fields@,
{
    let ghost m = jd_entries_view(entries@);
    let mut acc: Vec<(String, StructuredValue)> = Vec::new();
    let mut i: usize = 0;
    proof {
        assert(fields@.skip(0) =~= fields@);
        assert(crate::value::fields_vals_view(acc@) =~= Seq::<(Seq<char>, GVal)>::empty());
    }
    while i < fields.len()
        invariant
            i <= fields@.len(),
            m == jd_entries_view(entries@),
            spec_convert_json_fields(fields@, m) == spec_jprepend(
                crate::value::fields_vals_view(acc@),
                spec_convert_json_fields(fields@.skip(i as int), m),
            ),
        decreases fields@.len() - i,
    {
        let f = &fields[i];
        let ghost rest = fields@.skip(i as int);
        proof {
            assert(rest[0] == fields@[i as int]);
            assert(rest.drop_first() =~= fields@.skip(i as int + 1));
        }
        let dd = jd_get(entries, &f.field_name);
        let sub = convert_json(&f.field_type, dd);
        match sub {
            Result::Ok(v) => {
                let ghost front = crate::value::fields_vals_view(acc@);
                let ghost gv = crate::value::val_view(v);
                let ghost pre_acc = acc@;
                acc.push((f.field_name.clone(), v));
                proof {
                    assert(acc@.drop_last() =~= pre_acc);
                    assert(crate::value::fields_vals_view(acc@) =~= front.push(
                        (f.field_name@, gv),
                    ));
                    match spec_convert_json_fields(fields@.skip(i as int + 1), m) {
                        CResult::Converted(GVal::Struct(tail)) => {
                            assert(front + (seq![(f.field_name@, gv)] + tail) =~= front.push(
                                (f.field_name@, gv),
                            ) + tail);
                        }
                        _ => {}
                    }
                }
            }
            Result::Err(e) => {
                return Err(e);
            }
        }
        i += 1;
    }
    proof {
        assert(fields@.skip(fields@.len() as int).len() == 0);
        assert(crate::value::fields_vals_view(acc@) + Seq::<(Seq<char>, GVal)>::empty()
            =~= crate::value::fields_vals_view(acc@));
    }
    Ok(StructuredValue::Struct(acc))
}

/// Parse a serialized override payload and convert it against the schema:
/// the result is exactly the outcome of this payload's parse, converted.
pub fn decode_override(schema: &TCFieldType, payload: &String) -> (r: Result<
    StructuredValue,
    DecodeError,
>)
    ensures
        crate::clap::spec_result_matches(
            r,
            spec_override_outcome(*schema, spec_parse_json(payload@)),
        ),
{
    match parse_json(payload.as_str()) {
        Result::Ok(doc) => convert_json(schema, Some(&doc)),
        Result::Err(message) => Err(DecodeError::ValueValidation { message }),
    }
}

/// What an override yields: the exact conversion of the parsed document,
/// or a validation failure when no document could be parsed.
pub open spec fn spec_override_outcome(n: TCFieldType, p: GParse) -> CResult {
    match p {
        GParse::Parsed(d) => spec_convert_json(n, Option::Some(d)),
        GParse::Failed => CResult::Invalid,
    }
}

} // verus!
