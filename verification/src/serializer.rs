//! Serializer fields, payload validation, conversion to SQLite values, and
//! normalization of remote JSON.
use vstd::prelude::*;

use crate::json::{
    deep_entries, entries_get, entries_insert, has_key, json_text, object_get, object_has,
    object_insert, json_to_text, lemma_deep_entries, copy_entries, json_parse, parse_json,
    lemma_deep_entries_push, reads_back, Entries, JsonNumber, JsonValue, JsonView, NumberView,
};
use crate::model::{
    find_model_field, lookup_model_field, model_view, FieldType, ModelField, ModelFieldView,
    SqliteValue, SqliteView,
};
use crate::search::{any_match, first_match, lemma_first_match_is, lemma_first_match_none, lemma_first_match_some};
use crate::text::{
    chars_range, concat, ends_with, find_char, join, join_strings, str_ends_with, strings_view, i64_text, int_text, is_char, nat_text, str_eq,
    string_from_chars, to_chars, u64_text, str_le, text_le, lemma_str_le_refl, lemma_str_le_total,
    lemma_str_le_trans, lemma_str_le_antisym,
};

verus! {

/// One field of a serializer: its frontend name, the model field it reads and
/// writes, and its validation rules.
pub struct Field {
    pub name: String,
    pub source: String,
    pub required: bool,
    pub read_only: bool,
    pub write_only: bool,
    pub nullable: bool,
    pub max_length: Option<u32>,
    /// The model name of the related serializer, for a related field.
    pub relation: Option<String>,
    pub json: bool,
    pub ts_type: Option<String>,
    pub input_ts_type: Option<String>,
    /// The value used where the field is missing.
    pub default: Option<JsonValue>,
}

pub struct FieldView {
    pub name: Seq<char>,
    pub source: Seq<char>,
    pub required: bool,
    pub read_only: bool,
    pub write_only: bool,
    pub nullable: bool,
    pub max_length: Option<u32>,
    pub relation: Option<Seq<char>>,
    pub json: bool,
    pub ts_type: Option<Seq<char>>,
    pub input_ts_type: Option<Seq<char>>,
    pub default: Option<JsonView>,
}

pub open spec fn opt_str_view(s: Option<String>) -> Option<Seq<char>> {
    match s {
        Some(t) => Some(t@),
        None => None,
    }
}

pub open spec fn opt_json_view(v: Option<JsonValue>) -> Option<JsonView> {
    match v {
        Some(x) => Some(x@),
        None => None,
    }
}

pub open spec fn opt_json_ref_view(v: Option<&JsonValue>) -> Option<JsonView> {
    match v {
        Some(x) => Some(x@),
        None => None,
    }
}

impl View for Field {
    type V = FieldView;

    open spec fn view(&self) -> FieldView {
        FieldView {
            name: self.name@,
            source: self.source@,
            required: self.required,
            read_only: self.read_only,
            write_only: self.write_only,
            nullable: self.nullable,
            max_length: self.max_length,
            relation: opt_str_view(self.relation),
            json: self.json,
            ts_type: opt_str_view(self.ts_type),
            input_ts_type: opt_str_view(self.input_ts_type),
            default: opt_json_view(self.default),
        }
    }
}

pub open spec fn fields_view(s: Seq<Field>) -> Seq<FieldView> {
    s.map_values(|f: Field| f@)
}

pub fn copy_opt_string(s: &Option<String>) -> (r: Option<String>)
    ensures
        opt_str_view(r) == opt_str_view(*s),
{
    match s {
        Some(t) => Some(t.clone()),
        None => None,
    }
}

/// The view of `Field::new(name)`.
pub open spec fn new_field_view(name: Seq<char>) -> FieldView {
    FieldView {
        name,
        source: name,
        required: true,
        read_only: false,
        write_only: false,
        nullable: false,
        max_length: None,
        relation: None,
        json: false,
        ts_type: None,
        input_ts_type: None,
        default: None,
    }
}

impl Field {
    /// A required, writable field whose source is its name.
    pub fn new(name: &str) -> (r: Field)
        ensures
            r@ == new_field_view(name@),
    {
        Field {
            name: String::from_str(name),
            source: String::from_str(name),
            required: true,
            read_only: false,
            write_only: false,
            nullable: false,
            max_length: None,
            relation: None,
            json: false,
            ts_type: None,
            input_ts_type: None,
            default: None,
        }
    }

    /// A field stored as JSON text and read back as JSON.
    pub fn json(name: &str) -> (r: Field)
        ensures
            r@ == (FieldView { json: true, ..new_field_view(name@) }),
    {
        let mut f = Field::new(name);
        f.json = true;
        f
    }

    /// A read-only field that outputs the related model named `relation`.
    pub fn related(name: &str, source: &str, relation: &str) -> (r: Field)
        ensures
            r@ == (FieldView {
                source: source@,
                required: false,
                read_only: true,
                relation: Some(relation@),
                ..new_field_view(name@)
            }),
    {
        let mut f = Field::new(name);
        f.source = String::from_str(source);
        f.required = false;
        f.read_only = true;
        f.relation = Some(String::from_str(relation));
        f
    }

    pub fn source(self, source: &str) -> (r: Field)
        ensures
            r@ == (FieldView { source: source@, ..self@ }),
    {
        let mut f = self;
        f.source = String::from_str(source);
        f
    }

    pub fn required(self, required: bool) -> (r: Field)
        ensures
            r@ == (FieldView { required, ..self@ }),
    {
        let mut f = self;
        f.required = required;
        f
    }

    /// Marks the field read-only; a read-only field is never required.
    pub fn read_only(self) -> (r: Field)
        ensures
            r@ == (FieldView { read_only: true, required: false, ..self@ }),
    {
        let mut f = self;
        f.read_only = true;
        f.required = false;
        f
    }

    pub fn write_only(self) -> (r: Field)
        ensures
            r@ == (FieldView { write_only: true, ..self@ }),
    {
        let mut f = self;
        f.write_only = true;
        f
    }

    pub fn nullable(self) -> (r: Field)
        ensures
            r@ == (FieldView { nullable: true, ..self@ }),
    {
        let mut f = self;
        f.nullable = true;
        f
    }

    pub fn max_length(self, max_length: u32) -> (r: Field)
        ensures
            r@ == (FieldView { max_length: Some(max_length), ..self@ }),
    {
        let mut f = self;
        f.max_length = Some(max_length);
        f
    }

    pub fn ts_type(self, ts_type: &str) -> (r: Field)
        ensures
            r@ == (FieldView { ts_type: Some(ts_type@), ..self@ }),
    {
        let mut f = self;
        f.ts_type = Some(String::from_str(ts_type));
        f
    }

    pub fn input_ts_type(self, ts_type: &str) -> (r: Field)
        ensures
            r@ == (FieldView { input_ts_type: Some(ts_type@), ..self@ }),
    {
        let mut f = self;
        f.input_ts_type = Some(String::from_str(ts_type));
        f
    }

    pub fn default(self, default: JsonValue) -> (r: Field)
        ensures
            r@ == (FieldView { default: Some(default@), ..self@ }),
    {
        let mut f = self;
        f.default = Some(default);
        f
    }

    pub fn without_default(self) -> (r: Field)
        ensures
            r@ == (FieldView { default: None, ..self@ }),
    {
        let mut f = self;
        f.default = None;
        f
    }

    pub fn has_default(&self) -> (r: bool)
        ensures
            r == self@.default is Some,
    {
        self.default.is_some()
    }

    /// A copy of the field.
    pub fn copy_field(&self) -> (r: Field)
        ensures
            r@ == self@,
    {
        Field {
            name: self.name.clone(),
            source: self.source.clone(),
            required: self.required,
            read_only: self.read_only,
            write_only: self.write_only,
            nullable: self.nullable,
            max_length: self.max_length,
            relation: copy_opt_string(&self.relation),
            json: self.json,
            ts_type: copy_opt_string(&self.ts_type),
            input_ts_type: copy_opt_string(&self.input_ts_type),
            default: match &self.default {
                Some(d) => Some(d.copy_value()),
                None => None,
            },
        }
    }
}

/// Why a payload or a stored value was refused.
pub enum SerializerError {
    ExpectedObject,
    UnknownField(String),
    ReadonlyField(String),
    MissingField(String),
    NullNotAllowed(String),
    InvalidType { field: String, expected: &'static str },
    MaxLengthExceeded { field: String, max_length: u32 },
    InvalidModelField(String),
    Json(String),
}

pub enum SerializerErrorView {
    ExpectedObject,
    UnknownField(Seq<char>),
    ReadonlyField(Seq<char>),
    MissingField(Seq<char>),
    NullNotAllowed(Seq<char>),
    InvalidType(Seq<char>, Seq<char>),
    MaxLengthExceeded(Seq<char>, u32),
    InvalidModelField(Seq<char>),
    Json(Seq<char>),
}

impl View for SerializerError {
    type V = SerializerErrorView;

    open spec fn view(&self) -> SerializerErrorView {
        match self {
            SerializerError::ExpectedObject => SerializerErrorView::ExpectedObject,
            SerializerError::UnknownField(s) => SerializerErrorView::UnknownField(s@),
            SerializerError::ReadonlyField(s) => SerializerErrorView::ReadonlyField(s@),
            SerializerError::MissingField(s) => SerializerErrorView::MissingField(s@),
            SerializerError::NullNotAllowed(s) => SerializerErrorView::NullNotAllowed(s@),
            SerializerError::InvalidType { field, expected } => SerializerErrorView::InvalidType(
                field@,
                expected@,
            ),
            SerializerError::MaxLengthExceeded { field, max_length } =>
                SerializerErrorView::MaxLengthExceeded(field@, *max_length),
            SerializerError::InvalidModelField(s) => SerializerErrorView::InvalidModelField(s@),
            SerializerError::Json(s) => SerializerErrorView::Json(s@),
        }
    }
}

/// The text of an error, as its `Display` writes it.
pub open spec fn serializer_message(e: SerializerErrorView) -> Seq<char> {
    match e {
        SerializerErrorView::ExpectedObject => "expected a JSON object"@,
        SerializerErrorView::UnknownField(s) => "unknown field: "@ + s,
        SerializerErrorView::ReadonlyField(s) => "field is read-only: "@ + s,
        SerializerErrorView::MissingField(s) => "missing field: "@ + s,
        SerializerErrorView::NullNotAllowed(s) => "null is not allowed for field: "@ + s,
        SerializerErrorView::InvalidType(f, x) => "invalid type for field "@ + f + ", expected "@
            + x,
        SerializerErrorView::MaxLengthExceeded(f, m) => "field "@ + f + " exceeds max length "@
            + nat_text(m as nat),
        SerializerErrorView::InvalidModelField(s) => "invalid model field: "@ + s,
        SerializerErrorView::Json(s) => "json error: "@ + s,
    }
}

impl SerializerError {
    /// The text of the error.
    pub fn message(&self) -> (r: String)
        ensures
            r@ == serializer_message(self@),
    {
        match self {
            SerializerError::ExpectedObject => String::from_str("expected a JSON object"),
            SerializerError::UnknownField(s) => concat("unknown field: ", s.as_str()),
            SerializerError::ReadonlyField(s) => concat("field is read-only: ", s.as_str()),
            SerializerError::MissingField(s) => concat("missing field: ", s.as_str()),
            SerializerError::NullNotAllowed(s) => concat(
                "null is not allowed for field: ",
                s.as_str(),
            ),
            SerializerError::InvalidType { field, expected } => {
                let mut m = concat("invalid type for field ", field.as_str());
                m.append(", expected ");
                m.append(expected);
                m
            },
            SerializerError::MaxLengthExceeded { field, max_length } => {
                let mut m = concat("field ", field.as_str());
                m.append(" exceeds max length ");
                let n = u64_text(*max_length as u64);
                m.append(n.as_str());
                m
            },
            SerializerError::InvalidModelField(s) => concat("invalid model field: ", s.as_str()),
            SerializerError::Json(s) => concat("json error: ", s.as_str()),
        }
    }
}

pub open spec fn expected_name(ty: FieldType) -> Seq<char> {
    match ty {
        FieldType::Integer => "integer"@,
        FieldType::Text => "string"@,
        FieldType::Boolean => "boolean"@,
        FieldType::Real => "number"@,
    }
}

/// Whether a JSON value has the type a column of type `ty` takes.
pub open spec fn type_ok(ty: FieldType, v: JsonView) -> bool {
    match ty {
        FieldType::Integer => v.as_i64() is Some || v.as_u64() is Some,
        FieldType::Text => v.as_str() is Some,
        FieldType::Boolean => v.as_bool() is Some,
        FieldType::Real => v is Number,
    }
}

/// Whether a text value is longer, in characters, than the maximum length.
pub open spec fn too_long(max_length: Option<u32>, v: JsonView) -> bool {
    match (max_length, v) {
        (Some(m), JsonView::Str(s)) => s.len() > m,
        _ => false,
    }
}

fn expected_text(ty: FieldType) -> (r: &'static str)
    ensures
        r@ == expected_name(ty),
{
    match ty {
        FieldType::Integer => "integer",
        FieldType::Text => "string",
        FieldType::Boolean => "boolean",
        FieldType::Real => "number",
    }
}

/// Checks that `value` has the JSON type of a column of type `ty`.
pub fn validate_type(field: &str, ty: FieldType, value: &JsonValue) -> (r: Result<(), SerializerError>)
    ensures
        r is Ok <==> type_ok(ty, value@),
        r matches Err(e) ==> e@ == SerializerErrorView::InvalidType(field@, expected_name(ty)),
{
    let ok = match ty {
        FieldType::Integer => value.as_i64().is_some() || value.as_u64().is_some(),
        FieldType::Text => value.as_str().is_some(),
        FieldType::Boolean => value.as_bool().is_some(),
        FieldType::Real => value.is_number(),
    };
    if ok {
        Ok(())
    } else {
        Err(SerializerError::InvalidType { field: String::from_str(field), expected: expected_text(ty) })
    }
}

/// Checks that a text value has at most `max_length` characters; other values pass.
pub fn validate_max_length(field: &str, max_length: u32, value: &JsonValue) -> (r: Result<(), SerializerError>)
    ensures
        r is Ok <==> !too_long(Some(max_length), value@),
        r matches Err(e) ==> e@ == SerializerErrorView::MaxLengthExceeded(field@, max_length),
{
    match value.as_str() {
        None => Ok(()),
        Some(text) => {
            let n = text.as_str().unicode_len();
            if n > max_length as usize {
                Err(SerializerError::MaxLengthExceeded { field: String::from_str(field), max_length })
            } else {
                Ok(())
            }
        },
    }
}

pub type CheckResult = Result<Option<(Seq<char>, JsonView)>, SerializerErrorView>;

/// What validation makes of one field of a payload object: nothing, an
/// entry keyed by the field's source, or an error.
pub open spec fn check_field(f: FieldView, obj: Entries, model: Seq<ModelFieldView>) -> CheckResult {
    match lookup_model_field(model, f.source) {
        None => Err(SerializerErrorView::InvalidModelField(f.source)),
        Some(mf) => if f.read_only {
            if has_key(obj, f.name) {
                Err(SerializerErrorView::ReadonlyField(f.name))
            } else {
                Ok(None)
            }
        } else {
            match entries_get(obj, f.name) {
                Some(v) => if v == JsonView::Null {
                    if f.nullable {
                        Ok(Some((f.source, JsonView::Null)))
                    } else {
                        Err(SerializerErrorView::NullNotAllowed(f.name))
                    }
                } else if f.json {
                    Ok(Some((f.source, JsonView::Str(json_text(v)))))
                } else if !type_ok(mf.ty, v) {
                    Err(SerializerErrorView::InvalidType(f.name, expected_name(mf.ty)))
                } else if too_long(f.max_length, v) {
                    Err(SerializerErrorView::MaxLengthExceeded(f.name, f.max_length->0))
                } else {
                    Ok(Some((f.source, v)))
                },
                None => match f.default {
                    Some(d) => Ok(Some((f.source, d))),
                    None => if f.required {
                        Err(SerializerErrorView::MissingField(f.name))
                    } else {
                        Ok(None)
                    },
                },
            }
        },
    }
}

/// Validation of the fields in order: the first error, or the entries of the
/// accepted fields, each inserted under its source.
pub open spec fn validate_fields(
    fields: Seq<FieldView>,
    obj: Entries,
    model: Seq<ModelFieldView>,
) -> Result<Entries, SerializerErrorView>
    decreases fields.len(),
{
    if fields.len() == 0 {
        Ok(Seq::empty())
    } else {
        match validate_fields(fields.drop_last(), obj, model) {
            Err(e) => Err(e),
            Ok(acc) => match check_field(fields.last(), obj, model) {
                Err(e) => Err(e),
                Ok(None) => Ok(acc),
                Ok(Some(kv)) => Ok(entries_insert(acc, kv.0, kv.1)),
            },
        }
    }
}

/// An object entry whose key names no field.
pub open spec fn unknown_key(fields: Seq<FieldView>) -> spec_fn((Seq<char>, JsonView)) -> bool {
    |e: (Seq<char>, JsonView)| !(exists|j: int| 0 <= j < fields.len() && #[trigger] fields[j].name == e.0)
}

/// `i` holds an unknown key that sorts first among the unknown keys of the
/// object, the one met first where the keys are visited in order.
pub open spec fn is_least_unknown(obj: Entries, fields: Seq<FieldView>, i: int) -> bool {
    &&& 0 <= i < obj.len()
    &&& unknown_key(fields)(obj[i])
    &&& forall|j: int| 0 <= j < obj.len() && unknown_key(fields)(#[trigger] obj[j]) ==> str_le(obj[i].0, obj[j].0)
}

/// The result of validating a payload against the serializer's fields: an
/// object with a key that names no field is refused with its least such key.
pub open spec fn validate_spec(
    value: JsonView,
    fields: Seq<FieldView>,
    model: Seq<ModelFieldView>,
) -> Result<Entries, SerializerErrorView> {
    match value {
        JsonView::Object(obj) => if any_match(obj, unknown_key(fields)) {
            Err(SerializerErrorView::UnknownField(obj[choose|i: int| is_least_unknown(obj, fields, i)].0))
        } else {
            validate_fields(fields, obj, model)
        },
        _ => Err(SerializerErrorView::ExpectedObject),
    }
}

pub open spec fn opt_entry_view(e: Option<(String, JsonValue)>) -> Option<(Seq<char>, JsonView)> {
    match e {
        Some(kv) => Some((kv.0@, kv.1@)),
        None => None,
    }
}

/// A writable JSON field whose payload value is not null and reads back
/// (`reads_back`): that value, stored as its JSON text, is what
/// `serialize_json_field` gives back for the field.
pub open spec fn json_field_reads_back(f: FieldView, obj: Entries) -> bool {
    f.json && !f.read_only ==> match entries_get(obj, f.name) {
        Some(v) => v != JsonView::Null && reads_back(v) ==> serialize_json_spec(f, JsonView::Str(json_text(v))) == v,
        None => true,
    }
}

fn check_one_field(f: &Field, obj: &Vec<(String, JsonValue)>, model: &Vec<ModelField>) -> (r: Result<
    Option<(String, JsonValue)>,
    SerializerError,
>)
    ensures
        match r {
            Ok(x) => check_field(f@, deep_entries(obj@), model_view(model@)) == CheckResult::Ok(opt_entry_view(x)),
            Err(e) => check_field(f@, deep_entries(obj@), model_view(model@)) == CheckResult::Err(e@),
        },
        r is Ok ==> json_field_reads_back(f@, deep_entries(obj@)),
{
    let mf = match find_model_field(model, f.source.as_str()) {
        None => {
            return Err(SerializerError::InvalidModelField(f.source.clone()));
        },
        Some(mf) => mf,
    };
    if f.read_only {
        if object_has(obj, f.name.as_str()) {
            return Err(SerializerError::ReadonlyField(f.name.clone()));
        } else {
            return Ok(None);
        }
    }
    match object_get(obj, f.name.as_str()) {
        Some(v) => {
            if v.is_null() {
                if f.nullable {
                    Ok(Some((f.source.clone(), JsonValue::Null)))
                } else {
                    Err(SerializerError::NullNotAllowed(f.name.clone()))
                }
            } else if f.json {
                Ok(Some((f.source.clone(), JsonValue::String(json_to_text(v)))))
            } else {
                match validate_type(f.name.as_str(), mf.ty, v) {
                    Err(e) => {
                        return Err(e);
                    },
                    Ok(()) => {},
                }
                match f.max_length {
                    Some(m) => match validate_max_length(f.name.as_str(), m, v) {
                        Err(e) => {
                            return Err(e);
                        },
                        Ok(()) => {},
                    },
                    None => {},
                }
                Ok(Some((f.source.clone(), v.copy_value())))
            }
        },
        None => match &f.default {
            Some(d) => Ok(Some((f.source.clone(), d.copy_value()))),
            None => {
                if f.required {
                    Err(SerializerError::MissingField(f.name.clone()))
                } else {
                    Ok(None)
                }
            },
        },
    }
}

proof fn lemma_validate_fields_err(fields: Seq<FieldView>, obj: Entries, model: Seq<ModelFieldView>, n: int, e: SerializerErrorView)
    requires
        0 <= n <= fields.len(),
        validate_fields(fields.take(n), obj, model) == Err::<Entries, SerializerErrorView>(e),
    ensures
        validate_fields(fields, obj, model) == Err::<Entries, SerializerErrorView>(e),
    decreases fields.len() - n,
{
    if n < fields.len() {
        assert(fields.take(n + 1).drop_last() =~= fields.take(n));
        lemma_validate_fields_err(fields, obj, model, n + 1, e);
    } else {
        assert(fields.take(n) =~= fields);
    }
}

/// Validates a payload object against the fields: the accepted entries, keyed
/// by source, or the first error. Where it accepts, each JSON field's value
/// that reads back is stored as a text that `serialize_json_field` turns into
/// that value again.
pub fn validate_object(value: &JsonValue, fields: &Vec<Field>, model: &Vec<ModelField>) -> (r: Result<
    Vec<(String, JsonValue)>,
    SerializerError,
>)
    ensures
        match r {
            Ok(e) => validate_spec(value@, fields_view(fields@), model_view(model@)) == Ok::<Entries, SerializerErrorView>(deep_entries(e@)),
            Err(e) => validate_spec(value@, fields_view(fields@), model_view(model@)) == Err::<Entries, SerializerErrorView>(e@),
        },
        r is Ok ==> (value@ matches JsonView::Object(obj) && forall|i: int|
            0 <= i < fields.len() ==> #[trigger] json_field_reads_back(fields_view(fields@)[i], obj)),
{
    let obj = match value.as_object() {
        None => {
            return Err(SerializerError::ExpectedObject);
        },
        Some(o) => o,
    };
    let ghost fv = fields_view(fields@);
    let ghost oe = deep_entries(obj@);
    proof {
        lemma_deep_entries(obj@);
    }
    let mut best: Option<usize> = None;
    let mut k: usize = 0;
    while k < obj.len()
        invariant
            k <= obj.len(),
            fv == fields_view(fields@),
            oe == deep_entries(obj@),
            oe.len() == obj@.len(),
            value@ == JsonView::Object(oe),
            forall|j: int| 0 <= j < obj@.len() ==> #[trigger] oe[j] == (obj@[j].0@, obj@[j].1.deep()),
            best matches None ==> forall|j: int| 0 <= j < k ==> !unknown_key(fv)(#[trigger] oe[j]),
            best matches Some(b) ==> b < k && unknown_key(fv)(oe[b as int]) && forall|j: int|
                0 <= j < k && unknown_key(fv)(#[trigger] oe[j]) ==> str_le(oe[b as int].0, oe[j].0),
        decreases obj.len() - k,
    {
        let key = &obj[k].0;
        let mut found = false;
        let mut j: usize = 0;
        while j < fields.len()
            invariant
                j <= fields.len(),
                fv == fields_view(fields@),
                !found ==> forall|t: int| 0 <= t < j ==> fv[t].name != key@,
                found ==> exists|t: int| 0 <= t < fields.len() && fv[t].name == key@,
            decreases fields.len() - j,
        {
            if str_eq(fields[j].name.as_str(), key.as_str()) {
                assert(fv[j as int].name == key@);
                found = true;
            }
            j = j + 1;
        }
        assert(oe[k as int].0 == key@);
        if !found {
            assert(unknown_key(fv)(oe[k as int]));
            let replace = match best {
                None => true,
                Some(b) => !text_le(obj[b].0.as_str(), key.as_str()),
            };
            if replace {
                proof {
                    lemma_str_le_refl(key@);
                    if let Some(b) = best {
                        lemma_str_le_total(oe[b as int].0, key@);
                        assert forall|j: int| 0 <= j < k + 1 && unknown_key(fv)(#[trigger] oe[j]) implies str_le(key@, oe[j].0) by {
                            if j < k {
                                lemma_str_le_trans(key@, oe[b as int].0, oe[j].0);
                            }
                        }
                    }
                }
                best = Some(k);
            } else {
                proof {
                    let b = best->0;
                    assert(str_le(oe[b as int].0, key@));
                }
            }
        } else {
            assert(!unknown_key(fv)(oe[k as int]));
        }
        k = k + 1;
    }
    match best {
        Some(b) => {
            proof {
                assert(is_least_unknown(oe, fv, b as int));
                assert(any_match(oe, unknown_key(fv)));
                let c = choose|i: int| is_least_unknown(oe, fv, i);
                assert(is_least_unknown(oe, fv, c));
                lemma_str_le_antisym(oe[b as int].0, oe[c].0);
            }
            return Err(SerializerError::UnknownField(obj[b].0.clone()));
        },
        None => {},
    }
    let mut acc: Vec<(String, JsonValue)> = Vec::new();
    let mut i: usize = 0;
    while i < fields.len()
        invariant
            i <= fields.len(),
            fv == fields_view(fields@),
            oe == deep_entries(obj@),
            value@ == JsonView::Object(oe),
            !any_match(oe, unknown_key(fv)),
            validate_fields(fv.take(i as int), oe, model_view(model@)) == Ok::<Entries, SerializerErrorView>(deep_entries(acc@)),
            forall|t: int| 0 <= t < i ==> #[trigger] json_field_reads_back(fv[t], oe),
        decreases fields.len() - i,
    {
        proof {
            assert(fv.take(i + 1).drop_last() =~= fv.take(i as int));
            assert(fv.take(i + 1).last() == fields@[i as int]@);
        }
        match check_one_field(&fields[i], obj, model) {
            Err(e) => {
                proof {
                    lemma_validate_fields_err(fv, oe, model_view(model@), i + 1, e@);
                }
                return Err(e);
            },
            Ok(None) => {},
            Ok(Some(kv)) => {
                let (key, v) = kv;
                object_insert(&mut acc, key, v);
            },
        }
        i = i + 1;
    }
    proof {
        assert(fv.take(fields.len() as int) =~= fv);
    }
    Ok(acc)
}

pub type SqliteResult = Result<SqliteView, SerializerErrorView>;

pub type SqlitePairs = Seq<(Seq<char>, SqliteView)>;

pub type PairsResult = Result<SqlitePairs, SerializerErrorView>;

pub open spec fn pairs_view(s: Seq<(String, SqliteValue)>) -> SqlitePairs {
    s.map_values(|p: (String, SqliteValue)| (p.0@, p.1@))
}

/// The SQLite value stored for a validated JSON value in a column.
pub open spec fn to_sqlite_spec(mf: ModelFieldView, v: JsonView) -> SqliteResult {
    if v == JsonView::Null {
        Ok(SqliteView::Null)
    } else {
        match mf.ty {
            FieldType::Integer => match v.as_i64() {
                Some(i) => Ok(SqliteView::I64(i)),
                None => Err(SerializerErrorView::InvalidType(mf.rust_name, "integer"@)),
            },
            FieldType::Text => match v.as_str() {
                Some(s) => Ok(SqliteView::Str(s)),
                None => Err(SerializerErrorView::InvalidType(mf.rust_name, "string"@)),
            },
            FieldType::Boolean => match v.as_bool() {
                Some(b) => Ok(SqliteView::Bool(b)),
                None => Err(SerializerErrorView::InvalidType(mf.rust_name, "boolean"@)),
            },
            FieldType::Real => match v {
                JsonView::Number(n) => Ok(SqliteView::Real(n)),
                _ => Err(SerializerErrorView::InvalidType(mf.rust_name, "number"@)),
            },
        }
    }
}

/// Converts validated entries, keyed by model field, to column values in order.
pub open spec fn values_spec(data: Entries, model: Seq<ModelFieldView>) -> PairsResult
    decreases data.len(),
{
    if data.len() == 0 {
        Ok(Seq::empty())
    } else {
        match values_spec(data.drop_last(), model) {
            Err(e) => Err(e),
            Ok(acc) => match lookup_model_field(model, data.last().0) {
                None => Err(SerializerErrorView::InvalidModelField(data.last().0)),
                Some(mf) => match to_sqlite_spec(mf, data.last().1) {
                    Err(e) => Err(e),
                    Ok(x) => Ok(acc.push((mf.db_name, x))),
                },
            },
        }
    }
}

/// Validation followed by conversion to column values.
pub open spec fn validated_values_spec(
    value: JsonView,
    fields: Seq<FieldView>,
    model: Seq<ModelFieldView>,
) -> PairsResult {
    match validate_spec(value, fields, model) {
        Err(e) => Err(e),
        Ok(d) => values_spec(d, model),
    }
}

/// Converts a validated JSON value to the value stored in a column.
pub fn json_to_sqlite_value(field: &ModelField, value: JsonValue) -> (r: Result<SqliteValue, SerializerError>)
    ensures
        match r {
            Ok(x) => to_sqlite_spec(field@, value@) == SqliteResult::Ok(x@),
            Err(e) => to_sqlite_spec(field@, value@) == SqliteResult::Err(e@),
        },
{
    if value.is_null() {
        return Ok(SqliteValue::Null);
    }
    match field.ty {
        FieldType::Integer => {
            match value.as_i64() {
                Some(i) => Ok(SqliteValue::I64(i)),
                None => match value.as_u64() {
                    Some(u) if u <= 0x7fff_ffff_ffff_ffffu64 => Ok(SqliteValue::I64(u as i64)),
                    _ => Err(
                        SerializerError::InvalidType {
                            field: field.rust_name.clone(),
                            expected: "integer",
                        },
                    ),
                },
            }
        },
        FieldType::Text => match value {
            JsonValue::String(s) => Ok(SqliteValue::String(s)),
            _ => Err(SerializerError::InvalidType { field: field.rust_name.clone(), expected: "string" }),
        },
        FieldType::Boolean => match value.as_bool() {
            Some(b) => Ok(SqliteValue::Bool(b)),
            None => Err(SerializerError::InvalidType { field: field.rust_name.clone(), expected: "boolean" }),
        },
        FieldType::Real => match value {
            JsonValue::Number(n) => Ok(SqliteValue::Real(n)),
            _ => Err(SerializerError::InvalidType { field: field.rust_name.clone(), expected: "number" }),
        },
    }
}

proof fn lemma_values_err(data: Entries, model: Seq<ModelFieldView>, n: int, e: SerializerErrorView)
    requires
        0 <= n <= data.len(),
        values_spec(data.take(n), model) == PairsResult::Err(e),
    ensures
        values_spec(data, model) == PairsResult::Err(e),
    decreases data.len() - n,
{
    if n < data.len() {
        assert(data.take(n + 1).drop_last() =~= data.take(n));
        lemma_values_err(data, model, n + 1, e);
    } else {
        assert(data.take(n) =~= data);
    }
}

/// Validates a payload and converts it to column values.
pub fn validated_values(value: &JsonValue, fields: &Vec<Field>, model: &Vec<ModelField>) -> (r: Result<
    Vec<(String, SqliteValue)>,
    SerializerError,
>)
    ensures
        match r {
            Ok(p) => validated_values_spec(value@, fields_view(fields@), model_view(model@)) == PairsResult::Ok(pairs_view(p@)),
            Err(e) => validated_values_spec(value@, fields_view(fields@), model_view(model@)) == PairsResult::Err(e@),
        },
{
    let data = match validate_object(value, fields, model) {
        Err(e) => {
            return Err(e);
        },
        Ok(d) => d,
    };
    let ghost de = deep_entries(data@);
    let ghost mv = model_view(model@);
    proof {
        lemma_deep_entries(data@);
    }
    let mut out: Vec<(String, SqliteValue)> = Vec::new();
    proof {
        assert(de.take(0) =~= Seq::<(Seq<char>, JsonView)>::empty());
        assert(pairs_view(out@) =~= Seq::<(Seq<char>, SqliteView)>::empty());
    }
    let mut i: usize = 0;
    while i < data.len()
        invariant
            i <= data.len(),
            de == deep_entries(data@),
            de.len() == data@.len(),
            mv == model_view(model@),
            validate_spec(value@, fields_view(fields@), mv) == Ok::<Entries, SerializerErrorView>(de),
            values_spec(de.take(i as int), mv) == PairsResult::Ok(pairs_view(out@)),
        decreases data.len() - i,
    {
        proof {
            lemma_deep_entries(data@);
            assert(de.take(i + 1).drop_last() =~= de.take(i as int));
            assert(de.take(i + 1).last() == (data@[i as int].0@, data@[i as int].1@));
        }
        let name = &data[i].0;
        let mf = match find_model_field(model, name.as_str()) {
            None => {
                proof {
                    lemma_values_err(de, mv, i + 1, SerializerErrorView::InvalidModelField(name@));
                }
                return Err(SerializerError::InvalidModelField(name.clone()));
            },
            Some(mf) => mf,
        };
        match json_to_sqlite_value(mf, data[i].1.copy_value()) {
            Err(e) => {
                proof {
                    lemma_values_err(de, mv, i + 1, e@);
                }
                return Err(e);
            },
            Ok(x) => {
                let ghost before = out@;
                out.push((mf.db_name.clone(), x));
                proof {
                    assert(pairs_view(out@) =~= pairs_view(before).push((mf@.db_name, x@)));
                }
            },
        }
        i = i + 1;
    }
    proof {
        assert(de.take(data.len() as int) =~= de);
    }
    Ok(out)
}

/// The field as an update sees it: a writable field is optional and has no default.
pub open spec fn update_field_view(f: FieldView) -> FieldView {
    if f.read_only {
        f
    } else {
        FieldView { required: false, default: None, ..f }
    }
}

pub open spec fn update_fields_view(fields: Seq<FieldView>) -> Seq<FieldView> {
    fields.map_values(|f: FieldView| update_field_view(f))
}

/// The fields as an update sees them.
pub fn update_fields(fields: &Vec<Field>) -> (r: Vec<Field>)
    ensures
        fields_view(r@) == update_fields_view(fields_view(fields@)),
{
    let mut out: Vec<Field> = Vec::new();
    let mut i: usize = 0;
    while i < fields.len()
        invariant
            i <= fields.len(),
            out@.len() == i,
            forall|j: int| 0 <= j < i ==> #[trigger] out@[j]@ == update_field_view(fields@[j]@),
        decreases fields.len() - i,
    {
        let f = &fields[i];
        if f.read_only {
            out.push(f.copy_field());
        } else {
            out.push(f.copy_field().required(false).without_default());
        }
        i = i + 1;
    }
    assert(fields_view(out@) =~= update_fields_view(fields_view(fields@)));
    out
}

/// The value at a dotted path: `a.b` is the entry `b` of the object at `a`.
pub open spec fn lookup_path(obj: Entries, path: Seq<char>) -> Option<JsonView>
    decreases path.len(),
{
    match first_match(path, is_char('.')) {
        None => entries_get(obj, path),
        Some(i) => if 0 <= i < path.len() {
            match entries_get(obj, path.take(i)) {
                Some(JsonView::Object(inner)) => lookup_path(inner, path.skip(i + 1)),
                _ => None,
            }
        } else {
            None
        },
    }
}

/// Looks up a dotted path in an object.
pub fn lookup_remote_value<'a>(object: &'a Vec<(String, JsonValue)>, path: &str) -> (r: Option<&'a JsonValue>)
    ensures
        match r {
            Some(v) => lookup_path(deep_entries(object@), path@) == Some(v@),
            None => lookup_path(deep_entries(object@), path@) is None,
        },
{
    let mut cur: &'a Vec<(String, JsonValue)> = object;
    let mut rest: Vec<char> = to_chars(path);
    loop
        invariant
            lookup_path(deep_entries(object@), path@) == lookup_path(deep_entries(cur@), rest@),
        decreases rest.len(),
    {
        match find_char(&rest, '.') {
            None => {
                let key = string_from_chars(&rest);
                return object_get(cur, key.as_str());
            },
            Some(i) => {
                proof {
                    lemma_first_match_some(rest@, is_char('.'));
                }
                let part = string_from_chars(&chars_range(&rest, 0, i));
                assert(part@ =~= rest@.take(i as int));
                match object_get(cur, part.as_str()) {
                    Some(v) => match v.as_object() {
                        Some(inner) => {
                            let next = chars_range(&rest, i + 1, rest.len());
                            assert(next@ =~= rest@.skip(i + 1));
                            cur = inner;
                            rest = next;
                        },
                        None => {
                            return None;
                        },
                    },
                    None => {
                        return None;
                    },
                }
            },
        }
    }
}

pub open spec fn str_at(o: Entries, key: Seq<char>) -> Option<Seq<char>> {
    match entries_get(o, key) {
        Some(v) => v.as_str(),
        None => None,
    }
}

/// The text that stands for a nested object: its first text among `name`,
/// `short_name`, `title`, `label` and `value`, else its integer `id` in decimal.
pub open spec fn coerce_text_spec(o: Entries) -> Option<Seq<char>> {
    if str_at(o, "name"@) is Some {
        str_at(o, "name"@)
    } else if str_at(o, "short_name"@) is Some {
        str_at(o, "short_name"@)
    } else if str_at(o, "title"@) is Some {
        str_at(o, "title"@)
    } else if str_at(o, "label"@) is Some {
        str_at(o, "label"@)
    } else if str_at(o, "value"@) is Some {
        str_at(o, "value"@)
    } else {
        match entries_get(o, "id"@) {
            Some(v) => match v.as_i64() {
                Some(i) => Some(int_text(i as int)),
                None => match v.as_u64() {
                    Some(u) => Some(nat_text(u as nat)),
                    None => None,
                },
            },
            None => None,
        }
    }
}

fn text_at(o: &Vec<(String, JsonValue)>, key: &str) -> (r: Option<String>)
    ensures
        opt_str_view(r) == str_at(deep_entries(o@), key@),
{
    match object_get(o, key) {
        Some(v) => match v.as_str() {
            Some(s) => Some(s.clone()),
            None => None,
        },
        None => None,
    }
}

/// The text that stands for a nested object, if it has one.
pub fn coerce_text_value(object: &Vec<(String, JsonValue)>) -> (r: Option<String>)
    ensures
        opt_str_view(r) == coerce_text_spec(deep_entries(object@)),
{
    let t = text_at(object, "name");
    if t.is_some() {
        return t;
    }
    let t = text_at(object, "short_name");
    if t.is_some() {
        return t;
    }
    let t = text_at(object, "title");
    if t.is_some() {
        return t;
    }
    let t = text_at(object, "label");
    if t.is_some() {
        return t;
    }
    let t = text_at(object, "value");
    if t.is_some() {
        return t;
    }
    match object_get(object, "id") {
        Some(v) => match v.as_i64() {
            Some(i) => Some(i64_text(i)),
            None => match v.as_u64() {
                Some(u) => Some(u64_text(u)),
                None => None,
            },
        },
        None => None,
    }
}

/// The integer `id` of a nested object, as a column value.
pub open spec fn object_id_spec(o: Entries) -> Option<SqliteView> {
    match entries_get(o, "id"@) {
        Some(v) => match v.as_i64() {
            Some(i) => Some(SqliteView::I64(i)),
            None => None,
        },
        None => None,
    }
}

pub open spec fn opt_sqlite_view(v: Option<SqliteValue>) -> Option<SqliteView> {
    match v {
        Some(x) => Some(x@),
        None => None,
    }
}

/// The column value of a nested object's integer `id`.
pub fn sqlite_value_from_object(object: &Vec<(String, JsonValue)>) -> (r: Option<SqliteValue>)
    ensures
        opt_sqlite_view(r) == object_id_spec(deep_entries(object@)),
{
    match object_get(object, "id") {
        Some(v) => match v.as_i64() {
            Some(i) => Some(SqliteValue::I64(i)),
            None => match v.as_u64() {
                Some(u) if u <= 0x7fff_ffff_ffff_ffffu64 => Some(SqliteValue::I64(u as i64)),
                _ => None,
            },
        },
        None => None,
    }
}

/// The text stored for a nested object in a text column.
pub open spec fn object_text_spec(o: Entries) -> Seq<char> {
    match coerce_text_spec(o) {
        Some(t) => t,
        None => json_text(JsonView::Object(o)),
    }
}

fn object_text(o: &Vec<(String, JsonValue)>) -> (r: String)
    ensures
        r@ == object_text_spec(deep_entries(o@)),
{
    match coerce_text_value(o) {
        Some(t) => t,
        None => {
            let whole = JsonValue::Object(copy_entries(o));
            json_to_text(&whole)
        },
    }
}

/// The column value for a JSON value read from a remote or cached object.
pub open spec fn from_json_spec(mf: ModelFieldView, v: JsonView) -> SqliteResult {
    if v == JsonView::Null {
        Ok(SqliteView::Null)
    } else {
        match mf.ty {
            FieldType::Integer => match v.as_i64() {
                Some(i) => Ok(SqliteView::I64(i)),
                None => match v {
                    JsonView::Object(o) => match object_id_spec(o) {
                        Some(x) => Ok(x),
                        None => Err(SerializerErrorView::InvalidType(mf.rust_name, "integer"@)),
                    },
                    _ => Err(SerializerErrorView::InvalidType(mf.rust_name, "integer"@)),
                },
            },
            FieldType::Text => match v {
                JsonView::Str(s) => Ok(SqliteView::Str(s)),
                JsonView::Object(o) => Ok(SqliteView::Str(object_text_spec(o))),
                _ => Err(SerializerErrorView::InvalidType(mf.rust_name, "string"@)),
            },
            FieldType::Boolean => match v.as_bool() {
                Some(b) => Ok(SqliteView::Bool(b)),
                None => Err(SerializerErrorView::InvalidType(mf.rust_name, "boolean"@)),
            },
            FieldType::Real => match v {
                JsonView::Number(n) => Ok(SqliteView::Real(n)),
                _ => Err(SerializerErrorView::InvalidType(mf.rust_name, "number"@)),
            },
        }
    }
}

/// Converts a JSON value read from a remote or cached object to a column value;
/// a nested object gives its `id` or its text.
pub fn sqlite_value_from_json(field: &ModelField, value: &JsonValue) -> (r: Result<SqliteValue, SerializerError>)
    ensures
        match r {
            Ok(x) => from_json_spec(field@, value@) == SqliteResult::Ok(x@),
            Err(e) => from_json_spec(field@, value@) == SqliteResult::Err(e@),
        },
{
    if value.is_null() {
        return Ok(SqliteValue::Null);
    }
    match field.ty {
        FieldType::Integer => {
            match value.as_i64() {
                Some(i) => Ok(SqliteValue::I64(i)),
                None => {
                    let from_object = match value {
                        JsonValue::Object(o) => sqlite_value_from_object(o),
                        _ => None,
                    };
                    match from_object {
                        Some(x) => Ok(x),
                        None => Err(
                            SerializerError::InvalidType {
                                field: field.rust_name.clone(),
                                expected: "integer",
                            },
                        ),
                    }
                },
            }
        },
        FieldType::Text => match value {
            JsonValue::String(s) => Ok(SqliteValue::String(s.clone())),
            JsonValue::Object(o) => Ok(SqliteValue::String(object_text(o))),
            _ => Err(SerializerError::InvalidType { field: field.rust_name.clone(), expected: "string" }),
        },
        FieldType::Boolean => match value.as_bool() {
            Some(b) => Ok(SqliteValue::Bool(b)),
            None => Err(SerializerError::InvalidType { field: field.rust_name.clone(), expected: "boolean" }),
        },
        FieldType::Real => match value {
            JsonValue::Number(n) => Ok(SqliteValue::Real(copy_number(n))),
            _ => Err(SerializerError::InvalidType { field: field.rust_name.clone(), expected: "number" }),
        },
    }
}

fn copy_number(n: &JsonNumber) -> (r: JsonNumber)
    ensures
        r.view_number() == n.view_number(),
{
    match n {
        JsonNumber::PosInt(u) => JsonNumber::PosInt(*u),
        JsonNumber::NegInt(i) => JsonNumber::NegInt(*i),
        JsonNumber::Float(s) => JsonNumber::Float(s.clone()),
    }
}

/// The model field that a field reads: by its source, else by its name.
pub open spec fn cache_model_field(f: FieldView, model: Seq<ModelFieldView>) -> Option<ModelFieldView> {
    match lookup_model_field(model, f.source) {
        Some(m) => Some(m),
        None => lookup_model_field(model, f.name),
    }
}

/// The value a field finds in a remote object: at its source path, else at its name.
pub open spec fn raw_remote(f: FieldView, obj: Entries) -> Option<JsonView> {
    match lookup_path(obj, f.source) {
        Some(v) => Some(v),
        None => lookup_path(obj, f.name),
    }
}

pub type CacheResult = Result<Option<(Seq<char>, SqliteView)>, SerializerErrorView>;

/// The column value cached for one field of a remote object, or nothing for a
/// write-only, related or unmapped field.
pub open spec fn cache_field(f: FieldView, obj: Entries, model: Seq<ModelFieldView>) -> CacheResult {
    if f.write_only || f.relation is Some {
        Ok(None)
    } else {
        match cache_model_field(f, model) {
            None => Ok(None),
            Some(mf) => {
                let raw = raw_remote(f, obj);
                let absent = raw is None || raw == Some(JsonView::Null);
                let value: SqliteResult = if absent && (f.nullable || mf.nullable) {
                    Ok(SqliteView::Null)
                } else if absent {
                    match f.default {
                        Some(d) => from_json_spec(mf, d),
                        None => Err(SerializerErrorView::MissingField(f.name)),
                    }
                } else if f.json {
                    Ok(SqliteView::Str(json_text(raw->0)))
                } else {
                    match raw->0 {
                        JsonView::Object(o) => if mf.ty == FieldType::Integer {
                            match object_id_spec(o) {
                                Some(x) => Ok(x),
                                None => Err(SerializerErrorView::InvalidType(f.name, "integer"@)),
                            }
                        } else if mf.ty == FieldType::Text {
                            Ok(SqliteView::Str(object_text_spec(o)))
                        } else {
                            from_json_spec(mf, raw->0)
                        },
                        v => from_json_spec(mf, v),
                    }
                };
                match value {
                    Ok(x) => Ok(Some((mf.db_name, x))),
                    Err(e) => Err(e),
                }
            },
        }
    }
}

/// The cached column values of the fields in order, or the first error.
pub open spec fn cache_fields(fields: Seq<FieldView>, obj: Entries, model: Seq<ModelFieldView>) -> PairsResult
    decreases fields.len(),
{
    if fields.len() == 0 {
        Ok(Seq::empty())
    } else {
        match cache_fields(fields.drop_last(), obj, model) {
            Err(e) => Err(e),
            Ok(acc) => match cache_field(fields.last(), obj, model) {
                Err(e) => Err(e),
                Ok(None) => Ok(acc),
                Ok(Some(p)) => Ok(acc.push(p)),
            },
        }
    }
}

pub open spec fn cache_spec(value: JsonView, fields: Seq<FieldView>, model: Seq<ModelFieldView>) -> PairsResult {
    match value {
        JsonView::Object(obj) => cache_fields(fields, obj, model),
        _ => Err(SerializerErrorView::ExpectedObject),
    }
}

fn cache_one_field(f: &Field, obj: &Vec<(String, JsonValue)>, model: &Vec<ModelField>) -> (r: Result<
    Option<(String, SqliteValue)>,
    SerializerError,
>)
    ensures
        match r {
            Ok(Some(p)) => cache_field(f@, deep_entries(obj@), model_view(model@)) == CacheResult::Ok(Some((p.0@, p.1@))),
            Ok(None) => cache_field(f@, deep_entries(obj@), model_view(model@)) == CacheResult::Ok(None),
            Err(e) => cache_field(f@, deep_entries(obj@), model_view(model@)) == CacheResult::Err(e@),
        },
{
    if f.write_only || f.relation.is_some() {
        return Ok(None);
    }
    let mf = match find_model_field(model, f.source.as_str()) {
        Some(m) => m,
        None => match find_model_field(model, f.name.as_str()) {
            Some(m) => m,
            None => {
                return Ok(None);
            },
        },
    };
    let raw = match lookup_remote_value(obj, f.source.as_str()) {
        Some(v) => Some(v),
        None => lookup_remote_value(obj, f.name.as_str()),
    };
    let absent = match raw {
        None => true,
        Some(v) => v.is_null(),
    };
    let value = if absent && (f.nullable || mf.nullable) {
        SqliteValue::Null
    } else if absent {
        match &f.default {
            Some(d) => match sqlite_value_from_json(mf, d) {
                Ok(x) => x,
                Err(e) => {
                    return Err(e);
                },
            },
            None => {
                return Err(SerializerError::MissingField(f.name.clone()));
            },
        }
    } else {
        let v = raw.unwrap();
        if f.json {
            SqliteValue::String(json_to_text(v))
        } else {
            match v {
                JsonValue::Object(o) => {
                    if mf.ty == FieldType::Integer {
                        match sqlite_value_from_object(o) {
                            Some(x) => x,
                            None => {
                                return Err(
                                    SerializerError::InvalidType {
                                        field: f.name.clone(),
                                        expected: "integer",
                                    },
                                );
                            },
                        }
                    } else if mf.ty == FieldType::Text {
                        SqliteValue::String(object_text(o))
                    } else {
                        match sqlite_value_from_json(mf, v) {
                            Ok(x) => x,
                            Err(e) => {
                                return Err(e);
                            },
                        }
                    }
                },
                _ => match sqlite_value_from_json(mf, v) {
                    Ok(x) => x,
                    Err(e) => {
                        return Err(e);
                    },
                },
            }
        }
    };
    Ok(Some((mf.db_name.clone(), value)))
}

proof fn lemma_cache_fields_err(fields: Seq<FieldView>, obj: Entries, model: Seq<ModelFieldView>, n: int, e: SerializerErrorView)
    requires
        0 <= n <= fields.len(),
        cache_fields(fields.take(n), obj, model) == PairsResult::Err(e),
    ensures
        cache_fields(fields, obj, model) == PairsResult::Err(e),
    decreases fields.len() - n,
{
    if n < fields.len() {
        assert(fields.take(n + 1).drop_last() =~= fields.take(n));
        lemma_cache_fields_err(fields, obj, model, n + 1, e);
    } else {
        assert(fields.take(n) =~= fields);
    }
}

/// The column values to cache for a remote object.
pub fn cache_values(value: &JsonValue, fields: &Vec<Field>, model: &Vec<ModelField>) -> (r: Result<
    Vec<(String, SqliteValue)>,
    SerializerError,
>)
    ensures
        match r {
            Ok(p) => cache_spec(value@, fields_view(fields@), model_view(model@)) == PairsResult::Ok(pairs_view(p@)),
            Err(e) => cache_spec(value@, fields_view(fields@), model_view(model@)) == PairsResult::Err(e@),
        },
{
    let obj = match value.as_object() {
        None => {
            return Err(SerializerError::ExpectedObject);
        },
        Some(o) => o,
    };
    let ghost fv = fields_view(fields@);
    let ghost oe = deep_entries(obj@);
    let ghost mv = model_view(model@);
    let mut out: Vec<(String, SqliteValue)> = Vec::new();
    proof {
        assert(fv.take(0) =~= Seq::<FieldView>::empty());
        assert(pairs_view(out@) =~= Seq::<(Seq<char>, SqliteView)>::empty());
    }
    let mut i: usize = 0;
    while i < fields.len()
        invariant
            i <= fields.len(),
            fv == fields_view(fields@),
            oe == deep_entries(obj@),
            mv == model_view(model@),
            value@ == JsonView::Object(oe),
            cache_fields(fv.take(i as int), oe, mv) == PairsResult::Ok(pairs_view(out@)),
        decreases fields.len() - i,
    {
        proof {
            assert(fv.take(i + 1).drop_last() =~= fv.take(i as int));
            assert(fv.take(i + 1).last() == fields@[i as int]@);
        }
        match cache_one_field(&fields[i], obj, model) {
            Err(e) => {
                proof {
                    lemma_cache_fields_err(fv, oe, mv, i + 1, e@);
                }
                return Err(e);
            },
            Ok(None) => {},
            Ok(Some(p)) => {
                let ghost before = out@;
                let ghost pv = (p.0@, p.1@);
                out.push(p);
                proof {
                    assert(pairs_view(out@) =~= pairs_view(before).push(pv));
                }
            },
        }
        i = i + 1;
    }
    proof {
        assert(fv.take(fields.len() as int) =~= fv);
    }
    Ok(out)
}

/// The value a field takes in a normalized remote object when the remote
/// object has none: its default, else null for a nullable or unmapped field,
/// else the zero value of its column type.
pub open spec fn default_remote_spec(f: FieldView, model: Seq<ModelFieldView>) -> JsonView {
    match f.default {
        Some(d) => d,
        None => match lookup_model_field(model, f.name) {
            Some(mf) => if mf.nullable || f.nullable {
                JsonView::Null
            } else {
                match mf.ty {
                    FieldType::Text => JsonView::Str(Seq::empty()),
                    FieldType::Integer => JsonView::Number(NumberView::PosInt(0)),
                    FieldType::Boolean => JsonView::Bool(false),
                    FieldType::Real => JsonView::Number(NumberView::Float("0.0"@)),
                }
            },
            None => JsonView::Null,
        },
    }
}

/// The default value of a field in a normalized remote object.
pub fn default_remote_value(field: &Field, model: &Vec<ModelField>) -> (r: JsonValue)
    ensures
        r@ == default_remote_spec(field@, model_view(model@)),
{
    match &field.default {
        Some(d) => d.copy_value(),
        None => match find_model_field(model, field.name.as_str()) {
            Some(mf) => {
                if mf.nullable || field.nullable {
                    JsonValue::Null
                } else {
                    match mf.ty {
                        FieldType::Text => JsonValue::String(String::new()),
                        FieldType::Integer => JsonValue::Number(JsonNumber::PosInt(0)),
                        FieldType::Boolean => JsonValue::Bool(false),
                        FieldType::Real => JsonValue::Number(JsonNumber::Float(String::from_str("0.0"))),
                    }
                }
            },
            None => JsonValue::Null,
        },
    }
}

/// The normalized value of a plain field: a nested object gives its `id`
/// (for a name ending in `_id`) or its text, a missing or null value gives
/// the default.
pub open spec fn normalize_field_spec(f: FieldView, raw: Option<JsonView>, model: Seq<ModelFieldView>) -> JsonView {
    match raw {
        Some(JsonView::Object(o)) => if ends_with(f.name, "_id"@) {
            match entries_get(o, "id"@) {
                Some(v) => v,
                None => JsonView::Null,
            }
        } else {
            match coerce_text_spec(o) {
                Some(t) => JsonView::Str(t),
                None => JsonView::Object(o),
            }
        },
        Some(v) => if v != JsonView::Null {
            v
        } else {
            default_remote_spec(f, model)
        },
        None => default_remote_spec(f, model),
    }
}

/// The entry a field contributes to a normalized remote object.
pub open spec fn normalize_entry(f: FieldView, obj: Entries, model: Seq<ModelFieldView>) -> Option<(Seq<char>, JsonView)> {
    if f.write_only {
        None
    } else {
        let raw = raw_remote(f, obj);
        let value = if f.json {
            match raw {
                Some(v) => v,
                None => default_remote_spec(f, model),
            }
        } else if f.relation is Some {
            match raw {
                Some(JsonView::Object(o)) => JsonView::Object(o),
                _ => JsonView::Null,
            }
        } else {
            normalize_field_spec(f, raw, model)
        };
        Some((f.name, value))
    }
}

pub open spec fn normalize_fields(fields: Seq<FieldView>, obj: Entries, model: Seq<ModelFieldView>) -> Entries
    decreases fields.len(),
{
    if fields.len() == 0 {
        Seq::empty()
    } else {
        let acc = normalize_fields(fields.drop_last(), obj, model);
        match normalize_entry(fields.last(), obj, model) {
            Some(kv) => entries_insert(acc, kv.0, kv.1),
            None => acc,
        }
    }
}

/// A remote object rebuilt with exactly the serializer's readable fields,
/// under their frontend names; any other value is kept as it is.
pub open spec fn normalize_spec(value: JsonView, fields: Seq<FieldView>, model: Seq<ModelFieldView>) -> JsonView {
    match value {
        JsonView::Object(obj) => JsonView::Object(normalize_fields(fields, obj, model)),
        v => v,
    }
}

fn normalize_one(f: &Field, obj: &Vec<(String, JsonValue)>, model: &Vec<ModelField>) -> (r: Option<(String, JsonValue)>)
    ensures
        opt_entry_view(r) == normalize_entry(f@, deep_entries(obj@), model_view(model@)),
{
    if f.write_only {
        return None;
    }
    let raw = match lookup_remote_value(obj, f.source.as_str()) {
        Some(v) => Some(v),
        None => lookup_remote_value(obj, f.name.as_str()),
    };
    let value = if f.json {
        match raw {
            Some(v) => v.copy_value(),
            None => default_remote_value(f, model),
        }
    } else if f.relation.is_some() {
        match raw {
            Some(JsonValue::Object(o)) => JsonValue::Object(copy_entries(o)),
            _ => JsonValue::Null,
        }
    } else {
        match raw {
            Some(JsonValue::Object(o)) => {
                if str_ends_with(f.name.as_str(), "_id") {
                    match object_get(o, "id") {
                        Some(v) => v.copy_value(),
                        None => JsonValue::Null,
                    }
                } else {
                    match coerce_text_value(o) {
                        Some(t) => JsonValue::String(t),
                        None => JsonValue::Object(copy_entries(o)),
                    }
                }
            },
            Some(v) => {
                if !v.is_null() {
                    v.copy_value()
                } else {
                    default_remote_value(f, model)
                }
            },
            None => default_remote_value(f, model),
        }
    };
    Some((f.name.clone(), value))
}

/// Rebuilds a remote object with the serializer's readable fields.
pub fn normalize_remote_object(value: JsonValue, fields: &Vec<Field>, model: &Vec<ModelField>) -> (r: JsonValue)
    ensures
        r@ == normalize_spec(value@, fields_view(fields@), model_view(model@)),
{
    let remote = match &value {
        JsonValue::Object(o) => o,
        _ => {
            return value;
        },
    };
    let ghost fv = fields_view(fields@);
    let ghost oe = deep_entries(remote@);
    let mut object: Vec<(String, JsonValue)> = Vec::new();
    proof {
        assert(fv.take(0) =~= Seq::<FieldView>::empty());
    }
    let mut i: usize = 0;
    while i < fields.len()
        invariant
            i <= fields.len(),
            fv == fields_view(fields@),
            oe == deep_entries(remote@),
            deep_entries(object@) == normalize_fields(fv.take(i as int), oe, model_view(model@)),
        decreases fields.len() - i,
    {
        proof {
            assert(fv.take(i + 1).drop_last() =~= fv.take(i as int));
            assert(fv.take(i + 1).last() == fields@[i as int]@);
        }
        match normalize_one(&fields[i], remote, model) {
            Some(kv) => {
                let (k, v) = kv;
                object_insert(&mut object, k, v);
            },
            None => {},
        }
        i = i + 1;
    }
    proof {
        assert(fv.take(fields.len() as int) =~= fv);
    }
    JsonValue::Object(object)
}

/// The value a model holds for a field: at its source, else at its name, else null.
pub open spec fn record_value(rec: Entries, f: FieldView) -> JsonView {
    match entries_get(rec, f.source) {
        Some(v) => v,
        None => match entries_get(rec, f.name) {
            Some(v) => v,
            None => JsonView::Null,
        },
    }
}

/// The output value of a field: a JSON field stored as text is read back as JSON.
pub open spec fn serialize_json_spec(f: FieldView, v: JsonView) -> JsonView {
    if !f.json {
        v
    } else {
        match v {
            JsonView::Str(s) => match json_parse(s) {
                Some(x) => x,
                None => JsonView::Null,
            },
            other => other,
        }
    }
}

/// The output value of a field.
pub fn serialize_json_field(field: &Field, value: JsonValue) -> (r: JsonValue)
    ensures
        r@ == serialize_json_spec(field@, value@),
{
    if !field.json {
        return value;
    }
    match value {
        JsonValue::String(s) => match parse_json(s.as_str()) {
            Some(x) => x,
            None => JsonValue::Null,
        },
        other => other,
    }
}

fn record_lookup(record: &Vec<(String, JsonValue)>, field: &Field) -> (r: JsonValue)
    ensures
        r@ == record_value(deep_entries(record@), field@),
{
    match object_get(record, field.source.as_str()) {
        Some(v) => v.copy_value(),
        None => match object_get(record, field.name.as_str()) {
            Some(v) => v.copy_value(),
            None => JsonValue::Null,
        },
    }
}

/// The model's identifier for a related field, when it has one.
pub open spec fn relation_id_spec(f: FieldView, rec: Entries) -> Option<i64> {
    if !f.write_only && f.relation is Some {
        match entries_get(rec, f.source) {
            Some(v) => v.as_i64(),
            None => match entries_get(rec, f.name) {
                Some(v) => v.as_i64(),
                None => None,
            },
        }
    } else {
        None
    }
}

/// The output of the first `n` fields: readable plain fields from the model's
/// values and related fields from `related`, each under its frontend name.
pub open spec fn serialize_prefix(
    fields: Seq<FieldView>,
    rec: Entries,
    related: Seq<Option<JsonView>>,
    n: int,
) -> Entries
    decreases n,
{
    if n <= 0 {
        Seq::empty()
    } else {
        let acc = serialize_prefix(fields, rec, related, n - 1);
        let f = fields[n - 1];
        if f.write_only {
            acc
        } else if f.relation is Some {
            let v = match relation_id_spec(f, rec) {
                Some(_) => match related[n - 1] {
                    Some(x) => x,
                    None => JsonView::Null,
                },
                None => JsonView::Null,
            };
            entries_insert(acc, f.name, v)
        } else {
            entries_insert(acc, f.name, serialize_json_spec(f, record_value(rec, f)))
        }
    }
}

/// The output of the readable plain fields, without related fields.
pub open spec fn serialize_plain_prefix(fields: Seq<FieldView>, rec: Entries, n: int) -> Entries
    decreases n,
{
    if n <= 0 {
        Seq::empty()
    } else {
        let acc = serialize_plain_prefix(fields, rec, n - 1);
        let f = fields[n - 1];
        if f.write_only || f.relation is Some {
            acc
        } else {
            entries_insert(acc, f.name, serialize_json_spec(f, record_value(rec, f)))
        }
    }
}

pub open spec fn opt_json_seq(s: Seq<Option<JsonValue>>) -> Seq<Option<JsonView>> {
    s.map_values(|o: Option<JsonValue>| opt_json_view(o))
}

/// Serializes a model's values: each readable, unrelated field under its name.
pub fn serialize_model(record: &Vec<(String, JsonValue)>, fields: &Vec<Field>) -> (r: JsonValue)
    ensures
        r@ == JsonView::Object(serialize_plain_prefix(fields_view(fields@), deep_entries(record@), fields@.len() as int)),
{
    let ghost fv = fields_view(fields@);
    let mut object: Vec<(String, JsonValue)> = Vec::new();
    let mut i: usize = 0;
    while i < fields.len()
        invariant
            i <= fields.len(),
            fv == fields_view(fields@),
            deep_entries(object@) == serialize_plain_prefix(fv, deep_entries(record@), i as int),
        decreases fields.len() - i,
    {
        let f = &fields[i];
        assert(fv[i as int] == f@);
        if !(f.write_only || f.relation.is_some()) {
            let v = serialize_json_field(f, record_lookup(record, f));
            object_insert(&mut object, f.name.clone(), v);
        }
        i = i + 1;
    }
    JsonValue::Object(object)
}

/// For each field, the identifier of the related model to serialize, if any.
pub fn relation_ids(record: &Vec<(String, JsonValue)>, fields: &Vec<Field>) -> (r: Vec<Option<i64>>)
    ensures
        r@.len() == fields@.len(),
        forall|k: int| 0 <= k < fields@.len() ==> r@[k] == relation_id_spec(#[trigger] fields@[k]@, deep_entries(record@)),
{
    let mut out: Vec<Option<i64>> = Vec::new();
    let mut i: usize = 0;
    while i < fields.len()
        invariant
            i <= fields.len(),
            out@.len() == i,
            forall|k: int| 0 <= k < i ==> out@[k] == relation_id_spec(#[trigger] fields@[k]@, deep_entries(record@)),
        decreases fields.len() - i,
    {
        let f = &fields[i];
        let id = if !f.write_only && f.relation.is_some() {
            match object_get(record, f.source.as_str()) {
                Some(v) => v.as_i64(),
                None => match object_get(record, f.name.as_str()) {
                    Some(v) => v.as_i64(),
                    None => None,
                },
            }
        } else {
            None
        };
        out.push(id);
        i = i + 1;
    }
    out
}

/// Serializes a model's values with the serialized related models: `related[k]`
/// is the related model of field `k` where `relation_ids` gives an identifier.
pub fn serialize_model_with_related(
    record: &Vec<(String, JsonValue)>,
    fields: &Vec<Field>,
    related: &Vec<Option<JsonValue>>,
) -> (r: JsonValue)
    requires
        related@.len() == fields@.len(),
    ensures
        r@ == JsonView::Object(serialize_prefix(fields_view(fields@), deep_entries(record@), opt_json_seq(related@), fields@.len() as int)),
{
    let ghost fv = fields_view(fields@);
    let ghost rv = opt_json_seq(related@);
    let ids = relation_ids(record, fields);
    let mut object: Vec<(String, JsonValue)> = Vec::new();
    let mut i: usize = 0;
    while i < fields.len()
        invariant
            i <= fields.len(),
            related@.len() == fields@.len(),
            ids@.len() == fields@.len(),
            forall|k: int| 0 <= k < fields@.len() ==> ids@[k] == relation_id_spec(#[trigger] fields@[k]@, deep_entries(record@)),
            fv == fields_view(fields@),
            rv == opt_json_seq(related@),
            deep_entries(object@) == serialize_prefix(fv, deep_entries(record@), rv, i as int),
        decreases fields.len() - i,
    {
        let f = &fields[i];
        assert(fv[i as int] == f@);
        assert(rv[i as int] == opt_json_view(related@[i as int]));
        assert(ids@[i as int] == relation_id_spec(fields@[i as int]@, deep_entries(record@)));
        if f.write_only {
        } else if f.relation.is_some() {
            let v = match ids[i] {
                Some(_) => match &related[i] {
                    Some(x) => x.copy_value(),
                    None => JsonValue::Null,
                },
                None => JsonValue::Null,
            };
            object_insert(&mut object, f.name.clone(), v);
        } else {
            let v = serialize_json_field(f, record_lookup(record, f));
            object_insert(&mut object, f.name.clone(), v);
        }
        i = i + 1;
    }
    JsonValue::Object(object)
}

/// An object completed with the entries of an existing one for the keys it lacks.
pub open spec fn merge_spec(obj: Entries, existing: Entries) -> Entries
    decreases existing.len(),
{
    if existing.len() == 0 {
        obj
    } else {
        let m = merge_spec(obj, existing.drop_last());
        if has_key(m, existing.last().0) {
            m
        } else {
            entries_insert(m, existing.last().0, existing.last().1)
        }
    }
}

/// Completes a remote object with the stored values it lacks.
pub fn merge_with_existing(object: &Vec<(String, JsonValue)>, existing: &Vec<(String, JsonValue)>) -> (r: Vec<(String, JsonValue)>)
    ensures
        deep_entries(r@) == merge_spec(deep_entries(object@), deep_entries(existing@)),
{
    let ghost ev = deep_entries(existing@);
    let mut merged = copy_entries(object);
    proof {
        lemma_deep_entries(existing@);
        assert(ev.take(0) =~= Seq::<(Seq<char>, JsonView)>::empty());
    }
    let mut i: usize = 0;
    while i < existing.len()
        invariant
            i <= existing.len(),
            ev == deep_entries(existing@),
            ev.len() == existing@.len(),
            deep_entries(merged@) == merge_spec(deep_entries(object@), ev.take(i as int)),
        decreases existing.len() - i,
    {
        proof {
            lemma_deep_entries(existing@);
            assert(ev.take(i + 1).drop_last() =~= ev.take(i as int));
            assert(ev.take(i + 1).last() == (existing@[i as int].0@, existing@[i as int].1@));
        }
        let key = &existing[i].0;
        if !object_has(&merged, key.as_str()) {
            object_insert(&mut merged, key.clone(), existing[i].1.copy_value());
        }
        i = i + 1;
    }
    proof {
        assert(ev.take(existing.len() as int) =~= ev);
    }
    merged
}

/// The `SET` assignments of an upsert: every column but the primary key.
pub open spec fn update_assignments(columns: Seq<Seq<char>>, pk: Seq<char>) -> Seq<Seq<char>>
    decreases columns.len(),
{
    if columns.len() == 0 {
        Seq::empty()
    } else {
        let acc = update_assignments(columns.drop_last(), pk);
        let c = columns.last();
        if c == pk {
            acc
        } else {
            acc.push(c + " = excluded."@ + c)
        }
    }
}

/// The numbered placeholders `?1` to `?n`.
pub open spec fn placeholders(n: nat) -> Seq<Seq<char>> {
    Seq::new(n, |i: int| "?"@ + nat_text((i + 1) as nat))
}

/// The statement that inserts a row or, on a primary key conflict, updates
/// every other given column.
pub open spec fn upsert_sql_spec(table: Seq<char>, pk: Seq<char>, columns: Seq<Seq<char>>) -> Seq<char> {
    let updates = update_assignments(columns, pk);
    let conflict = if updates.len() == 0 {
        "ON CONFLICT DO NOTHING"@
    } else {
        "ON CONFLICT("@ + pk + ") DO UPDATE SET "@ + join(updates, ", "@)
    };
    "INSERT INTO "@ + table + " ("@ + join(columns, ", "@) + ") VALUES ("@ + join(
        placeholders(columns.len()),
        ", "@,
    ) + ") "@ + conflict
}

/// The upsert statement for the given columns of a table.
pub fn upsert_sql(table: &str, pk: &str, columns: &Vec<String>) -> (r: String)
    ensures
        r@ == upsert_sql_spec(table@, pk@, strings_view(columns@)),
{
    let ghost cv = strings_view(columns@);
    let mut updates: Vec<String> = Vec::new();
    let mut marks: Vec<String> = Vec::new();
    let mut i: usize = 0;
    while i < columns.len()
        invariant
            i <= columns.len(),
            cv == strings_view(columns@),
            strings_view(updates@) == update_assignments(cv.take(i as int), pk@),
            strings_view(marks@) == placeholders(i as nat),
        decreases columns.len() - i,
    {
        proof {
            assert(cv.take(i + 1).drop_last() =~= cv.take(i as int));
            assert(cv.take(i + 1).last() == columns@[i as int]@);
        }
        let c = &columns[i];
        if !str_eq(c.as_str(), pk) {
            let mut a = c.clone();
            a.append(" = excluded.");
            a.append(c.as_str());
            let ghost before = updates@;
            updates.push(a);
            proof {
                assert(strings_view(updates@) =~= strings_view(before).push(a@));
            }
        }
        let mut m = String::from_str("?");
        let n = u64_text((i as u64) + 1);
        m.append(n.as_str());
        let ghost before_marks = marks@;
        marks.push(m);
        proof {
            assert(strings_view(marks@) =~= strings_view(before_marks).push(m@));
            assert(strings_view(marks@) =~= placeholders((i + 1) as nat));
        }
        i = i + 1;
    }
    proof {
        assert(cv.take(columns.len() as int) =~= cv);
    }
    let mut sql = String::from_str("INSERT INTO ");
    sql.append(table);
    sql.append(" (");
    let cols = join_strings(columns, ", ");
    sql.append(cols.as_str());
    sql.append(") VALUES (");
    let ph = join_strings(&marks, ", ");
    sql.append(ph.as_str());
    sql.append(") ");
    if updates.len() == 0 {
        sql.append("ON CONFLICT DO NOTHING");
    } else {
        sql.append("ON CONFLICT(");
        sql.append(pk);
        sql.append(") DO UPDATE SET ");
        let u = join_strings(&updates, ", ");
        sql.append(u.as_str());
    }
    sql
}

/// The id under which the stored row of a remote object is looked up: its
/// `id` entry, when that is an integer.
pub open spec fn cache_id_spec(value: JsonView) -> Option<i64> {
    match value {
        JsonView::Object(o) => match entries_get(o, "id"@) {
            Some(v) => v.as_i64(),
            None => None,
        },
        _ => None,
    }
}

/// The id under which the stored row of a remote object is looked up.
pub fn cache_id(value: &JsonValue) -> (r: Option<i64>)
    ensures
        r == cache_id_spec(value@),
{
    match value.as_object() {
        Some(o) => match object_get(o, "id") {
            Some(v) => v.as_i64(),
            None => None,
        },
        None => None,
    }
}

/// The columns to store for a remote object: the object, completed with the
/// serialized stored row when there is one, converted to column values;
/// nothing when the value is not an object, when a value does not convert,
/// or when no column is left.
pub open spec fn cache_plan_spec(
    value: JsonView,
    existing: Option<JsonView>,
    fields: Seq<FieldView>,
    model: Seq<ModelFieldView>,
) -> Option<SqlitePairs> {
    match value {
        JsonView::Object(o) => {
            let merged = match existing {
                Some(JsonView::Object(e)) => merge_spec(o, e),
                _ => o,
            };
            match cache_spec(JsonView::Object(merged), fields, model) {
                Ok(p) => if p.len() == 0 {
                    None
                } else {
                    Some(p)
                },
                Err(_) => None,
            }
        },
        _ => None,
    }
}

/// A serializer: its fields and the metadata of the model it reads and writes.
pub struct ModelSerializer {
    pub fields: Vec<Field>,
    pub model: Vec<ModelField>,
}

impl ModelSerializer {
    pub open spec fn fields_spec(&self) -> Seq<FieldView> {
        fields_view(self.fields@)
    }

    pub open spec fn model_spec(&self) -> Seq<ModelFieldView> {
        model_view(self.model@)
    }

    pub fn new(fields: Vec<Field>, model: Vec<ModelField>) -> (r: ModelSerializer)
        ensures
            r.fields@ == fields@,
            r.model@ == model@,
    {
        ModelSerializer { fields, model }
    }

    pub fn fields(&self) -> (r: &Vec<Field>)
        ensures
            r@ == self.fields@,
    {
        &self.fields
    }

    /// The output object of a model's values, without related fields.
    pub fn to_json(&self, record: &Vec<(String, JsonValue)>) -> (r: JsonValue)
        ensures
            r@ == JsonView::Object(serialize_plain_prefix(self.fields_spec(), deep_entries(record@), self.fields@.len() as int)),
    {
        serialize_model(record, &self.fields)
    }

    /// The output object of a model's values with its serialized related models.
    pub fn to_json_with_related(&self, record: &Vec<(String, JsonValue)>, related: &Vec<Option<JsonValue>>) -> (r: JsonValue)
        requires
            related@.len() == self.fields@.len(),
        ensures
            r@ == JsonView::Object(serialize_prefix(self.fields_spec(), deep_entries(record@), opt_json_seq(related@), self.fields@.len() as int)),
    {
        serialize_model_with_related(record, &self.fields, related)
    }

    /// The column values to cache for a remote object.
    pub fn cache_values(&self, value: &JsonValue) -> (r: Result<Vec<(String, SqliteValue)>, SerializerError>)
        ensures
            match r {
                Ok(p) => cache_spec(value@, self.fields_spec(), self.model_spec()) == PairsResult::Ok(pairs_view(p@)),
                Err(e) => cache_spec(value@, self.fields_spec(), self.model_spec()) == PairsResult::Err(e@),
            },
    {
        cache_values(value, &self.fields, &self.model)
    }

    /// The validated payload, keyed by model field.
    pub fn validate_json(&self, value: &JsonValue) -> (r: Result<Vec<(String, JsonValue)>, SerializerError>)
        ensures
            match r {
                Ok(e) => validate_spec(value@, self.fields_spec(), self.model_spec()) == Ok::<Entries, SerializerErrorView>(deep_entries(e@)),
                Err(e) => validate_spec(value@, self.fields_spec(), self.model_spec()) == Err::<Entries, SerializerErrorView>(e@),
            },
    {
        validate_object(value, &self.fields, &self.model)
    }

    /// The column values of a create payload.
    pub fn create_values(&self, value: &JsonValue) -> (r: Result<Vec<(String, SqliteValue)>, SerializerError>)
        ensures
            match r {
                Ok(p) => validated_values_spec(value@, self.fields_spec(), self.model_spec()) == PairsResult::Ok(pairs_view(p@)),
                Err(e) => validated_values_spec(value@, self.fields_spec(), self.model_spec()) == PairsResult::Err(e@),
            },
    {
        validated_values(value, &self.fields, &self.model)
    }

    /// The column values of an update payload: every writable field is optional.
    pub fn update_values(&self, value: &JsonValue) -> (r: Result<Vec<(String, SqliteValue)>, SerializerError>)
        ensures
            match r {
                Ok(p) => validated_values_spec(value@, update_fields_view(self.fields_spec()), self.model_spec()) == PairsResult::Ok(pairs_view(p@)),
                Err(e) => validated_values_spec(value@, update_fields_view(self.fields_spec()), self.model_spec()) == PairsResult::Err(e@),
            },
    {
        let fields = update_fields(&self.fields);
        validated_values(value, &fields, &self.model)
    }

    /// A remote object rebuilt with the serializer's readable fields.
    pub fn normalize_remote_value(&self, value: JsonValue) -> (r: JsonValue)
        ensures
            r@ == normalize_spec(value@, self.fields_spec(), self.model_spec()),
    {
        normalize_remote_object(value, &self.fields, &self.model)
    }

    /// The column values to store for a remote object, given the serialized
    /// stored row with the same id, if one was found.
    pub fn cache_plan(&self, value: &JsonValue, existing: Option<&JsonValue>) -> (r: Option<Vec<(String, SqliteValue)>>)
        ensures
            match cache_plan_spec(value@, opt_json_ref_view(existing), self.fields_spec(), self.model_spec()) {
                Some(p) => r matches Some(x) && pairs_view(x@) == p,
                None => r is None,
            },
    {
        let obj = match value.as_object() {
            Some(o) => o,
            None => {
                return None;
            },
        };
        let merged = match existing {
            Some(JsonValue::Object(e)) => merge_with_existing(obj, e),
            _ => copy_entries(obj),
        };
        match self.cache_values(&JsonValue::Object(merged)) {
            Ok(p) => if p.len() == 0 {
                None
            } else {
                Some(p)
            },
            Err(_) => None,
        }
    }

    /// The nested objects of a remote object that its related fields cache,
    /// with the position of each field.
    pub fn nested_relation_objects(&self, value: &JsonValue) -> (r: Vec<(usize, JsonValue)>)
        ensures
            forall|k: int| 0 <= k < r@.len() ==> {
                let i = (#[trigger] r@[k]).0 as int;
                &&& 0 <= i < self.fields@.len()
                &&& self.fields@[i].relation is Some
                &&& value@.as_object() matches Some(o) && entries_get(o, self.fields@[i].name@) == Some(r@[k].1@)
                &&& r@[k].1@ is Object
            },
            forall|k: int, l: int| 0 <= k < l < r@.len() ==> r@[k].0 < r@[l].0,
            forall|i: int|
                0 <= i < self.fields@.len() && self.fields@[i].relation is Some
                    && (value@.as_object() matches Some(o) && entries_get(o, self.fields@[i].name@) matches Some(JsonView::Object(_)))
                    ==> exists|k: int| 0 <= k < r@.len() && #[trigger] r@[k].0 == i,
    {
        let mut out: Vec<(usize, JsonValue)> = Vec::new();
        let obj = match value.as_object() {
            Some(o) => o,
            None => {
                return out;
            },
        };
        let mut i: usize = 0;
        while i < self.fields.len()
            invariant
                i <= self.fields@.len(),
                value@.as_object() == Some(deep_entries(obj@)),
                forall|k: int| 0 <= k < out@.len() ==> {
                    let j = (#[trigger] out@[k]).0 as int;
                    &&& 0 <= j < i
                    &&& self.fields@[j].relation is Some
                    &&& entries_get(deep_entries(obj@), self.fields@[j].name@) == Some(out@[k].1@)
                    &&& out@[k].1@ is Object
                },
                forall|k: int, l: int| 0 <= k < l < out@.len() ==> out@[k].0 < out@[l].0,
                forall|j: int|
                    0 <= j < i && self.fields@[j].relation is Some
                        && (entries_get(deep_entries(obj@), self.fields@[j].name@) matches Some(JsonView::Object(_)))
                        ==> exists|k: int| 0 <= k < out@.len() && #[trigger] out@[k].0 == j,
            decreases self.fields@.len() - i,
        {
            let f = &self.fields[i];
            if f.relation.is_some() {
                match object_get(obj, f.name.as_str()) {
                    Some(v) => match v {
                        JsonValue::Object(nested) => {
                            let ghost before = out@;
                            out.push((i, JsonValue::Object(copy_entries(nested))));
                            proof {
                                assert(out@[before.len() as int].0 == i);
                                assert forall|j: int|
                                    0 <= j < i && self.fields@[j].relation is Some
                                        && (entries_get(deep_entries(obj@), self.fields@[j].name@) matches Some(JsonView::Object(_)))
                                    implies exists|k: int| 0 <= k < out@.len() && #[trigger] out@[k].0 == j by {
                                    let k = choose|k: int| 0 <= k < before.len() && #[trigger] before[k].0 == j;
                                    assert(out@[k] == before[k]);
                                }
                            }
                        },
                        _ => {},
                    },
                    None => {},
                }
            }
            i = i + 1;
        }
        out
    }
}

proof fn lemma_validate_fields_ok(fields: Seq<FieldView>, obj: Entries, model: Seq<ModelFieldView>)
    ensures
        validate_fields(fields, obj, model) matches Ok(e) ==> {
            &&& forall|j: int| 0 <= j < fields.len() ==> (#[trigger] check_field(fields[j], obj, model)) is Ok
            &&& forall|i: int| 0 <= i < e.len() ==> exists|j: int|
                0 <= j < fields.len() && !fields[j].read_only && #[trigger] fields[j].source == (#[trigger] e[i]).0
        },
    decreases fields.len(),
{
    if fields.len() > 0 {
        let d = fields.drop_last();
        lemma_validate_fields_ok(d, obj, model);
        if let Ok(e) = validate_fields(fields, obj, model) {
            let acc = validate_fields(d, obj, model)->Ok_0;
            assert forall|j: int| 0 <= j < fields.len() implies (#[trigger] check_field(fields[j], obj, model)) is Ok by {
                if j < d.len() {
                    assert(d[j] == fields[j]);
                    assert(check_field(d[j], obj, model) is Ok);
                }
            }
            match check_field(fields.last(), obj, model) {
                Ok(Some(kv)) => {
                    crate::json::lemma_insert_keys(acc, kv.0, kv.1);
                    assert forall|i: int| 0 <= i < e.len() implies exists|j: int|
                        0 <= j < fields.len() && !fields[j].read_only && #[trigger] fields[j].source == (#[trigger] e[i]).0 by {
                        if e[i].0 == kv.0 {
                            assert(fields[fields.len() - 1].source == kv.0);
                        } else {
                            assert(has_key(acc, e[i].0));
                            let t = choose|t: int| 0 <= t < acc.len() && acc[t].0 == e[i].0;
                            let j = choose|j: int| 0 <= j < d.len() && !d[j].read_only && #[trigger] d[j].source == (#[trigger] acc[t]).0;
                            assert(d[j] == fields[j]);
                        }
                    }
                },
                _ => {
                    assert forall|i: int| 0 <= i < e.len() implies exists|j: int|
                        0 <= j < fields.len() && !fields[j].read_only && #[trigger] fields[j].source == (#[trigger] e[i]).0 by {
                        let j = choose|j: int| 0 <= j < d.len() && !d[j].read_only && #[trigger] d[j].source == (#[trigger] acc[i]).0;
                        assert(d[j] == fields[j]);
                    }
                },
            }
        }
    }
}

/// A valid payload names only serializer fields and never sets a read-only
/// field, and every entry of the validated data is keyed by the source of a
/// writable field.
pub proof fn law_validation_respects_read_only(value: JsonView, fields: Seq<FieldView>, model: Seq<ModelFieldView>)
    ensures
        validate_spec(value, fields, model) matches Ok(e) ==> {
            &&& value matches JsonView::Object(obj) && forall|j: int|
                0 <= j < fields.len() && (#[trigger] fields[j]).read_only ==> !has_key(obj, fields[j].name)
            &&& value matches JsonView::Object(obj) && forall|k: int|
                0 <= k < obj.len() ==> !unknown_key(fields)(#[trigger] obj[k])
            &&& forall|i: int| 0 <= i < e.len() ==> exists|j: int|
                0 <= j < fields.len() && !fields[j].read_only && #[trigger] fields[j].source == (#[trigger] e[i]).0
        },
{
    if let JsonView::Object(obj) = value {
        lemma_validate_fields_ok(fields, obj, model);
        if !any_match(obj, unknown_key(fields)) {
            assert forall|k: int| 0 <= k < obj.len() implies !unknown_key(fields)(#[trigger] obj[k]) by {
                if unknown_key(fields)(obj[k]) {
                    assert(any_match(obj, unknown_key(fields)));
                }
            }
        }
        if validate_spec(value, fields, model) is Ok {
            assert forall|j: int| 0 <= j < fields.len() && (#[trigger] fields[j]).read_only implies !has_key(obj, fields[j].name) by {
                assert(check_field(fields[j], obj, model) is Ok);
            }
        }
    }
}

proof fn lemma_update_fields_no_missing(fields: Seq<FieldView>, obj: Entries, model: Seq<ModelFieldView>)
    ensures
        !(validate_fields(update_fields_view(fields), obj, model) matches Err(SerializerErrorView::MissingField(_))),
    decreases fields.len(),
{
    if fields.len() > 0 {
        let u = update_fields_view(fields);
        assert(u.drop_last() =~= update_fields_view(fields.drop_last()));
        lemma_update_fields_no_missing(fields.drop_last(), obj, model);
        assert(u.last() == update_field_view(fields.last()));
    }
}

proof fn lemma_values_no_missing(data: Entries, model: Seq<ModelFieldView>)
    ensures
        !(values_spec(data, model) matches Err(SerializerErrorView::MissingField(_))),
    decreases data.len(),
{
    if data.len() > 0 {
        lemma_values_no_missing(data.drop_last(), model);
    }
}

/// An update never asks for a missing field: every writable field is optional.
pub proof fn law_update_is_partial(value: JsonView, fields: Seq<FieldView>, model: Seq<ModelFieldView>)
    ensures
        !(validated_values_spec(value, update_fields_view(fields), model) matches Err(SerializerErrorView::MissingField(_))),
{
    if let JsonView::Object(obj) = value {
        lemma_update_fields_no_missing(fields, obj, model);
        if let Ok(d) = validate_spec(value, update_fields_view(fields), model) {
            lemma_values_no_missing(d, model);
        }
    }
}

/// `key` is the frontend name of a readable field.
pub open spec fn readable_name(fields: Seq<FieldView>, key: Seq<char>) -> bool {
    exists|j: int| 0 <= j < fields.len() && !fields[j].write_only && fields[j].name == key
}

proof fn lemma_normalize_keys(fields: Seq<FieldView>, obj: Entries, model: Seq<ModelFieldView>)
    ensures
        forall|j: int| 0 <= j < fields.len() && !(#[trigger] fields[j]).write_only ==> has_key(normalize_fields(fields, obj, model), fields[j].name),
        forall|i: int| 0 <= i < normalize_fields(fields, obj, model).len() ==> readable_name(fields, (#[trigger] normalize_fields(fields, obj, model)[i]).0),
    decreases fields.len(),
{
    if fields.len() > 0 {
        let d = fields.drop_last();
        lemma_normalize_keys(d, obj, model);
        let acc = normalize_fields(d, obj, model);
        let r = normalize_fields(fields, obj, model);
        let f = fields.last();
        let last = fields.len() - 1;
        assert(fields[last] == f);
        if !f.write_only {
            let kv = normalize_entry(f, obj, model)->0;
            assert(kv.0 == f.name);
            assert(r == entries_insert(acc, kv.0, kv.1));
            crate::json::lemma_insert_keys(acc, kv.0, kv.1);
            assert forall|j: int| 0 <= j < fields.len() && !(#[trigger] fields[j]).write_only implies has_key(r, fields[j].name) by {
                if j < d.len() {
                    assert(d[j] == fields[j]);
                }
            }
            assert forall|i: int| 0 <= i < r.len() implies readable_name(fields, (#[trigger] r[i]).0) by {
                assert(r[i].0 == kv.0 || has_key(acc, r[i].0));
                if r[i].0 == kv.0 {
                    assert(!fields[last].write_only && fields[last].name == r[i].0);
                } else {
                    let t = choose|t: int| 0 <= t < acc.len() && acc[t].0 == r[i].0;
                    assert(readable_name(d, acc[t].0));
                    let j = choose|j: int| 0 <= j < d.len() && !d[j].write_only && d[j].name == acc[t].0;
                    assert(d[j] == fields[j]);
                }
            }
        } else {
            assert(r == acc);
            assert forall|j: int| 0 <= j < fields.len() && !(#[trigger] fields[j]).write_only implies has_key(r, fields[j].name) by {
                assert(d[j] == fields[j]);
            }
            assert forall|i: int| 0 <= i < r.len() implies readable_name(fields, (#[trigger] r[i]).0) by {
                assert(readable_name(d, acc[i].0));
                let j = choose|j: int| 0 <= j < d.len() && !d[j].write_only && d[j].name == acc[i].0;
                assert(d[j] == fields[j]);
            }
        }
    }
}

/// A normalized remote object has an entry for every readable field, under
/// its frontend name, and no other entry.
pub proof fn law_normalized_object_has_readable_fields(obj: Entries, fields: Seq<FieldView>, model: Seq<ModelFieldView>)
    ensures
        normalize_spec(JsonView::Object(obj), fields, model) == JsonView::Object(normalize_fields(fields, obj, model)),
        forall|j: int| 0 <= j < fields.len() && !(#[trigger] fields[j]).write_only
            ==> has_key(normalize_fields(fields, obj, model), fields[j].name),
        forall|i: int| 0 <= i < normalize_fields(fields, obj, model).len()
            ==> readable_name(fields, (#[trigger] normalize_fields(fields, obj, model)[i]).0),
{
    lemma_normalize_keys(fields, obj, model);
}

/// Completing a remote object with stored values keeps every value the
/// remote object has, and takes the stored value only for a key it lacks.
pub proof fn law_merge_prefers_remote(obj: Entries, existing: Entries, k: Seq<char>)
    ensures
        entries_get(merge_spec(obj, existing), k) == match entries_get(obj, k) {
            Some(v) => Some(v),
            None => entries_get(existing, k),
        },
    decreases existing.len(),
{
    if existing.len() > 0 {
        let d = existing.drop_last();
        let x = existing.last();
        law_merge_prefers_remote(obj, d, k);
        let m = merge_spec(obj, d);
        assert(existing =~= d.push(x));
        crate::json::lemma_get_push(d, x, k);
        if !has_key(m, x.0) {
            crate::json::lemma_get_insert(m, x.0, x.1, k);
        }
        lemma_get_has(m, k);
        lemma_get_has(d, k);
        lemma_get_has(obj, k);
        lemma_merge_keys(obj, d, k);
    }
}

proof fn lemma_get_has(e: Entries, k: Seq<char>)
    ensures
        entries_get(e, k) is Some <==> has_key(e, k),
{
}

proof fn lemma_merge_keys(obj: Entries, existing: Entries, k: Seq<char>)
    ensures
        has_key(merge_spec(obj, existing), k) <==> (has_key(obj, k) || has_key(existing, k)),
    decreases existing.len(),
{
    if existing.len() > 0 {
        let d = existing.drop_last();
        let x = existing.last();
        lemma_merge_keys(obj, d, k);
        let m = merge_spec(obj, d);
        assert(existing =~= d.push(x));
        if has_key(existing, k) && !has_key(d, k) {
            let i = choose|i: int| 0 <= i < existing.len() && existing[i].0 == k;
            if i < d.len() {
                assert(d[i] == existing[i]);
            }
            assert(x.0 == k);
        }
        if has_key(d, k) {
            let i = choose|i: int| 0 <= i < d.len() && d[i].0 == k;
            assert(existing[i] == d[i]);
        }
        if !has_key(m, x.0) {
            crate::json::lemma_get_insert(m, x.0, x.1, k);
            lemma_get_has(m, k);
            lemma_get_has(entries_insert(m, x.0, x.1), k);
        }
    }
}


/// A Real column takes every JSON number, integer and float alike, and
/// refuses every other value, naming `number` as the expected type.
pub proof fn law_real_column_takes_any_number(v: JsonView)
    ensures
        type_ok(FieldType::Real, v) <==> v is Number,
        type_ok(FieldType::Real, JsonView::Number(NumberView::PosInt(5))),
        expected_name(FieldType::Real) == "number"@,
{
}

/// The other column types take exactly their own kind of value: an Integer
/// column any integer (not a float), a Text column a string, a Boolean column
/// a boolean; each refusal names the expected type.
pub proof fn law_column_types_take_their_values(v: JsonView)
    ensures
        type_ok(FieldType::Integer, v) <==> (v matches JsonView::Number(n) && !(n is Float)),
        type_ok(FieldType::Text, v) <==> v is Str,
        type_ok(FieldType::Boolean, v) <==> v is Bool,
        expected_name(FieldType::Integer) == "integer"@,
        expected_name(FieldType::Text) == "string"@,
        expected_name(FieldType::Boolean) == "boolean"@,
{
}

/// Where a readable field has no default and its model column is not
/// nullable, nor the field, a null or missing remote value is filled with a
/// value that the column's type check accepts, never with null.
pub proof fn law_required_missing_remote_value_has_column_type(f: FieldView, obj: Entries, model: Seq<ModelFieldView>)
    requires
        !f.write_only,
        !f.json,
        f.relation is None,
        f.default is None,
        lookup_model_field(model, f.name) matches Some(mf) && !mf.nullable && !f.nullable,
        raw_remote(f, obj) is None || raw_remote(f, obj) == Some(JsonView::Null),
    ensures
        normalize_entry(f, obj, model) matches Some(kv) && kv.0 == f.name && kv.1 != JsonView::Null
            && type_ok(lookup_model_field(model, f.name)->0.ty, kv.1),
{
}

/// An update checks each field as a create does, except that a writable field
/// is optional and has no default: name, source, length limit, nullability,
/// read-only and write-only flags, relation and JSON flag are kept, and a
/// read-only field is left as it is.
pub proof fn law_update_keeps_field_checks(fields: Seq<FieldView>, i: int)
    requires
        0 <= i < fields.len(),
    ensures
        update_fields_view(fields).len() == fields.len(),
        update_fields_view(fields)[i].name == fields[i].name,
        update_fields_view(fields)[i].source == fields[i].source,
        update_fields_view(fields)[i].max_length == fields[i].max_length,
        update_fields_view(fields)[i].nullable == fields[i].nullable,
        update_fields_view(fields)[i].read_only == fields[i].read_only,
        update_fields_view(fields)[i].write_only == fields[i].write_only,
        update_fields_view(fields)[i].relation == fields[i].relation,
        update_fields_view(fields)[i].json == fields[i].json,
        fields[i].read_only ==> update_fields_view(fields)[i] == fields[i],
        !fields[i].read_only ==> !update_fields_view(fields)[i].required && update_fields_view(fields)[i].default is None,
{
}

/// A payload holding, for a writable non-JSON field, a text longer than the
/// field's length limit is refused, by an update as by a create.
pub proof fn law_update_refuses_too_long_text(
    obj: Entries,
    fields: Seq<FieldView>,
    model: Seq<ModelFieldView>,
    i: int,
    s: Seq<char>,
)
    requires
        0 <= i < fields.len(),
        !fields[i].read_only,
        !fields[i].json,
        entries_get(obj, fields[i].name) == Some(JsonView::Str(s)),
        fields[i].max_length matches Some(m) && s.len() > m,
    ensures
        validated_values_spec(JsonView::Object(obj), update_fields_view(fields), model) is Err,
        validated_values_spec(JsonView::Object(obj), fields, model) is Err,
{
    law_update_keeps_field_checks(fields, i);
    lemma_field_error_refuses(obj, update_fields_view(fields), model, i);
    lemma_field_error_refuses(obj, fields, model, i);
}

proof fn lemma_field_error_refuses(obj: Entries, fields: Seq<FieldView>, model: Seq<ModelFieldView>, i: int)
    requires
        0 <= i < fields.len(),
        check_field(fields[i], obj, model) is Err,
    ensures
        validated_values_spec(JsonView::Object(obj), fields, model) is Err,
{
    assert(fields.take(i + 1).drop_last() =~= fields.take(i));
    assert(fields.take(i + 1).last() == fields[i]);
    let r = validate_fields(fields.take(i + 1), obj, model);
    assert(r is Err);
    lemma_validate_fields_err(fields, obj, model, i + 1, r->Err_0);
}

/// A readable field with no default, whose model column is nullable, or which
/// is nullable itself, or which names no model column, is null in a
/// normalized remote object where the remote value is null or missing (where
/// no later field has the same name, which would replace it).
pub proof fn law_nullable_missing_remote_value_is_null(
    fields: Seq<FieldView>,
    obj: Entries,
    model: Seq<ModelFieldView>,
    i: int,
)
    requires
        0 <= i < fields.len(),
        !fields[i].write_only,
        fields[i].default is None,
        match lookup_model_field(model, fields[i].name) {
            Some(mf) => mf.nullable || fields[i].nullable,
            None => true,
        },
        raw_remote(fields[i], obj) is None || raw_remote(fields[i], obj) == Some(JsonView::Null),
    ensures
        normalize_entry(fields[i], obj, model) == Some((fields[i].name, JsonView::Null)),
        (forall|j: int| i < j < fields.len() ==> (#[trigger] fields[j]).name != fields[i].name) ==> entries_get(
            normalize_fields(fields, obj, model),
            fields[i].name,
        ) == Some(JsonView::Null),
{
    if forall|j: int| i < j < fields.len() ==> (#[trigger] fields[j]).name != fields[i].name {
        lemma_normalize_get_last(fields, obj, model, i, JsonView::Null);
    }
}

proof fn lemma_normalize_get_last(fields: Seq<FieldView>, obj: Entries, model: Seq<ModelFieldView>, i: int, v: JsonView)
    requires
        0 <= i < fields.len(),
        normalize_entry(fields[i], obj, model) == Some((fields[i].name, v)),
        forall|j: int| i < j < fields.len() ==> (#[trigger] fields[j]).name != fields[i].name,
    ensures
        entries_get(normalize_fields(fields, obj, model), fields[i].name) == Some(v),
    decreases fields.len(),
{
    let d = fields.drop_last();
    let name = fields[i].name;
    let acc = normalize_fields(d, obj, model);
    if i == fields.len() - 1 {
        crate::json::lemma_get_insert(acc, name, v, name);
    } else {
        assert(d[i] == fields[i]);
        assert forall|j: int| i < j < d.len() implies (#[trigger] d[j]).name != d[i].name by {
            assert(d[j] == fields[j]);
        }
        lemma_normalize_get_last(d, obj, model, i, v);
        let last = fields.last();
        assert(last == fields[fields.len() - 1]);
        match normalize_entry(last, obj, model) {
            Some(kv) => {
                crate::json::lemma_get_insert(acc, kv.0, kv.1, name);
            },
            None => {},
        }
    }
}

/// A readable plain field is output with the record's value at the field's
/// source whenever the record has that key; the value at the field's name is
/// used only where the source is missing.
pub proof fn law_output_reads_field_source(rec: Entries, f: FieldView, v: JsonView)
    requires
        entries_get(rec, f.source) == Some(v),
    ensures
        record_value(rec, f) == v,
{
}

/// The output object of a model's values holds, under a readable plain
/// field's name, the record's value at the field's source (read back as JSON
/// for a JSON field), where no later field has the same name.
pub proof fn law_output_field_takes_source_value(fields: Seq<FieldView>, rec: Entries, i: int, v: JsonView)
    requires
        0 <= i < fields.len(),
        !fields[i].write_only,
        fields[i].relation is None,
        entries_get(rec, fields[i].source) == Some(v),
        forall|j: int| i < j < fields.len() ==> (#[trigger] fields[j]).name != fields[i].name,
    ensures
        entries_get(serialize_plain_prefix(fields, rec, fields.len() as int), fields[i].name) == Some(
            serialize_json_spec(fields[i], v),
        ),
        !fields[i].json ==> entries_get(serialize_plain_prefix(fields, rec, fields.len() as int), fields[i].name)
            == Some(v),
{
    lemma_plain_prefix_get(fields, rec, i, v, fields.len() as int);
}

proof fn lemma_plain_prefix_get(fields: Seq<FieldView>, rec: Entries, i: int, v: JsonView, n: int)
    requires
        0 <= i < n <= fields.len(),
        !fields[i].write_only,
        fields[i].relation is None,
        entries_get(rec, fields[i].source) == Some(v),
        forall|j: int| i < j < fields.len() ==> (#[trigger] fields[j]).name != fields[i].name,
    ensures
        entries_get(serialize_plain_prefix(fields, rec, n), fields[i].name) == Some(serialize_json_spec(fields[i], v)),
    decreases n,
{
    let name = fields[i].name;
    let acc = serialize_plain_prefix(fields, rec, n - 1);
    let f = fields[n - 1];
    if n - 1 == i {
        crate::json::lemma_get_insert(acc, name, serialize_json_spec(f, record_value(rec, f)), name);
    } else {
        lemma_plain_prefix_get(fields, rec, i, v, n - 1);
        if !(f.write_only || f.relation is Some) {
            crate::json::lemma_get_insert(acc, f.name, serialize_json_spec(f, record_value(rec, f)), name);
        }
    }
}

} // verus!
