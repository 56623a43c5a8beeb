//! The model metadata that serializers and filters read: field names, column
//! types and nullability, and the values bound to SQLite statements.
use vstd::prelude::*;

use crate::json::{JsonNumber, NumberView};
use crate::search::{first_match, lemma_first_match_is, lemma_first_match_none};
use crate::text::str_eq;

verus! {

/// The column type of a model field.
#[derive(Clone, Copy, PartialEq, Eq, Structural, Debug)]
pub enum FieldType {
    Integer,
    Text,
    Boolean,
    Real,
}

/// The metadata of one model field.
pub struct ModelField {
    pub rust_name: String,
    pub db_name: String,
    pub ty: FieldType,
    pub nullable: bool,
    pub has_default: bool,
}

pub struct ModelFieldView {
    pub rust_name: Seq<char>,
    pub db_name: Seq<char>,
    pub ty: FieldType,
    pub nullable: bool,
    pub has_default: bool,
}

impl View for ModelField {
    type V = ModelFieldView;

    open spec fn view(&self) -> ModelFieldView {
        ModelFieldView {
            rust_name: self.rust_name@,
            db_name: self.db_name@,
            ty: self.ty,
            nullable: self.nullable,
            has_default: self.has_default,
        }
    }
}

impl ModelField {
    pub fn new(rust_name: &str, db_name: &str, ty: FieldType, nullable: bool, has_default: bool) -> (r: ModelField)
        ensures
            r@ == (ModelFieldView { rust_name: rust_name@, db_name: db_name@, ty, nullable, has_default }),
    {
        ModelField {
            rust_name: String::from_str(rust_name),
            db_name: String::from_str(db_name),
            ty,
            nullable,
            has_default,
        }
    }

    pub fn copy_field(&self) -> (r: ModelField)
        ensures
            r@ == self@,
    {
        ModelField {
            rust_name: self.rust_name.clone(),
            db_name: self.db_name.clone(),
            ty: self.ty,
            nullable: self.nullable,
            has_default: self.has_default,
        }
    }
}

pub open spec fn model_view(s: Seq<ModelField>) -> Seq<ModelFieldView> {
    s.map_values(|f: ModelField| f@)
}

/// The field named `name` by its Rust name or its column name.
pub open spec fn names_field(name: Seq<char>) -> spec_fn(ModelFieldView) -> bool {
    |f: ModelFieldView| f.rust_name == name || f.db_name == name
}

/// The field whose column name is `name`.
pub open spec fn has_column(name: Seq<char>) -> spec_fn(ModelFieldView) -> bool {
    |f: ModelFieldView| f.db_name == name
}

/// The first model field whose Rust name or column name is `name`.
pub open spec fn lookup_model_field(model: Seq<ModelFieldView>, name: Seq<char>) -> Option<ModelFieldView> {
    match first_match(model, names_field(name)) {
        Some(i) => Some(model[i]),
        None => None,
    }
}

/// The first model field whose column name is `name`.
pub open spec fn lookup_column(model: Seq<ModelFieldView>, name: Seq<char>) -> Option<ModelFieldView> {
    match first_match(model, has_column(name)) {
        Some(i) => Some(model[i]),
        None => None,
    }
}

/// Finds a model field by its Rust name or its column name.
pub fn find_model_field<'a>(fields: &'a Vec<ModelField>, name: &str) -> (r: Option<&'a ModelField>)
    ensures
        match r {
            Some(f) => lookup_model_field(model_view(fields@), name@) == Some(f@),
            None => lookup_model_field(model_view(fields@), name@) is None,
        },
{
    let ghost m = model_view(fields@);
    let mut i: usize = 0;
    while i < fields.len()
        invariant
            i <= fields.len(),
            m == model_view(fields@),
            forall|j: int| 0 <= j < i ==> !names_field(name@)(#[trigger] m[j]),
        decreases fields.len() - i,
    {
        let f = &fields[i];
        if str_eq(f.rust_name.as_str(), name) || str_eq(f.db_name.as_str(), name) {
            proof {
                lemma_first_match_is(m, names_field(name@), i as int);
            }
            return Some(f);
        }
        i = i + 1;
    }
    proof {
        lemma_first_match_none(m, names_field(name@));
    }
    None
}

/// Finds a model field by its column name.
pub fn find_column<'a>(fields: &'a Vec<ModelField>, name: &str) -> (r: Option<&'a ModelField>)
    ensures
        match r {
            Some(f) => lookup_column(model_view(fields@), name@) == Some(f@),
            None => lookup_column(model_view(fields@), name@) is None,
        },
{
    let ghost m = model_view(fields@);
    let mut i: usize = 0;
    while i < fields.len()
        invariant
            i <= fields.len(),
            m == model_view(fields@),
            forall|j: int| 0 <= j < i ==> !has_column(name@)(#[trigger] m[j]),
        decreases fields.len() - i,
    {
        let f = &fields[i];
        if str_eq(f.db_name.as_str(), name) {
            proof {
                lemma_first_match_is(m, has_column(name@), i as int);
            }
            return Some(f);
        }
        i = i + 1;
    }
    proof {
        lemma_first_match_none(m, has_column(name@));
    }
    None
}

/// A value bound to a SQLite statement. A real value keeps the JSON number it
/// was read from.
pub enum SqliteValue {
    I64(i64),
    String(String),
    Bool(bool),
    Real(JsonNumber),
    Null,
}

pub enum SqliteView {
    I64(i64),
    Str(Seq<char>),
    Bool(bool),
    Real(NumberView),
    Null,
}

impl View for SqliteValue {
    type V = SqliteView;

    open spec fn view(&self) -> SqliteView {
        match self {
            SqliteValue::I64(i) => SqliteView::I64(*i),
            SqliteValue::String(s) => SqliteView::Str(s@),
            SqliteValue::Bool(b) => SqliteView::Bool(*b),
            SqliteValue::Real(n) => SqliteView::Real(n.view_number()),
            SqliteValue::Null => SqliteView::Null,
        }
    }
}

} // verus!
