//! The error every API call answers with: a machine-readable code and a detail text.
use vstd::prelude::*;

use crate::filters::{filter_message, FilterError};
use crate::serializer::{serializer_message, SerializerError};

verus! {

pub struct ApiError {
    pub code: &'static str,
    pub detail: String,
}

pub struct ApiErrorView {
    pub code: Seq<char>,
    pub detail: Seq<char>,
}

impl View for ApiError {
    type V = ApiErrorView;

    open spec fn view(&self) -> ApiErrorView {
        ApiErrorView { code: self.code@, detail: self.detail@ }
    }
}

pub open spec fn bad_request_view(detail: Seq<char>) -> ApiErrorView {
    ApiErrorView { code: "bad_request"@, detail }
}

pub open spec fn not_found_view(detail: Seq<char>) -> ApiErrorView {
    ApiErrorView { code: "not_found"@, detail }
}

pub open spec fn internal_view(detail: Seq<char>) -> ApiErrorView {
    ApiErrorView { code: "internal_error"@, detail }
}

/// The kinds of failure the database layer reports.
#[derive(Clone, Copy, PartialEq, Eq, Structural, Debug)]
pub enum OrmErrorKind {
    UnknownField,
    ReadonlyField,
    EmptyUpdate,
    MissingPrimaryKey,
    RowNotFound,
    Database,
    Io,
    Json,
}

/// The code a database failure answers with: a request the model refuses is
/// a bad request, a missing row is not found, another database failure is a
/// database error, and a file or JSON failure is internal.
pub open spec fn orm_error_code(kind: OrmErrorKind) -> Seq<char> {
    match kind {
        OrmErrorKind::UnknownField | OrmErrorKind::ReadonlyField | OrmErrorKind::EmptyUpdate
        | OrmErrorKind::MissingPrimaryKey => "bad_request"@,
        OrmErrorKind::RowNotFound => "not_found"@,
        OrmErrorKind::Database => "database_error"@,
        OrmErrorKind::Io | OrmErrorKind::Json => "internal_error"@,
    }
}

impl ApiError {
    pub fn new(code: &'static str, detail: String) -> (r: ApiError)
        ensures
            r@ == (ApiErrorView { code: code@, detail: detail@ }),
    {
        ApiError { code, detail }
    }

    pub fn bad_request(detail: String) -> (r: ApiError)
        ensures
            r@ == bad_request_view(detail@),
    {
        ApiError::new("bad_request", detail)
    }

    pub fn not_found(detail: String) -> (r: ApiError)
        ensures
            r@ == not_found_view(detail@),
    {
        ApiError::new("not_found", detail)
    }

    pub fn internal(detail: String) -> (r: ApiError)
        ensures
            r@ == internal_view(detail@),
    {
        ApiError::new("internal_error", detail)
    }

    /// The text of the error, as its `Display` writes it: the detail.
    pub fn message(&self) -> (r: String)
        ensures
            r@ == self.detail@,
    {
        self.detail.clone()
    }

    /// A serializer error answers as a bad request with the error's text.
    pub fn from_serializer(e: &SerializerError) -> (r: ApiError)
        ensures
            r@ == bad_request_view(serializer_message(e@)),
    {
        ApiError::bad_request(e.message())
    }

    /// A database failure, by its kind, with the failure's text as detail.
    pub fn from_orm(kind: OrmErrorKind, message: String) -> (r: ApiError)
        ensures
            r@ == (ApiErrorView { code: orm_error_code(kind), detail: message@ }),
    {
        match kind {
            OrmErrorKind::UnknownField | OrmErrorKind::ReadonlyField | OrmErrorKind::EmptyUpdate
            | OrmErrorKind::MissingPrimaryKey => ApiError::bad_request(message),
            OrmErrorKind::RowNotFound => ApiError::not_found(message),
            OrmErrorKind::Database => ApiError::new("database_error", message),
            OrmErrorKind::Io | OrmErrorKind::Json => ApiError::internal(message),
        }
    }

    /// A file that could not be read answers as an internal error.
    pub fn from_io(message: String) -> (r: ApiError)
        ensures
            r@ == internal_view(message@),
    {
        ApiError::internal(message)
    }

    /// A configuration text that does not parse answers as a bad request.
    pub fn from_toml(message: String) -> (r: ApiError)
        ensures
            r@ == bad_request_view(message@),
    {
        ApiError::bad_request(message)
    }

    /// A filter error answers as a bad request with the error's text.
    pub fn from_filter(e: &FilterError) -> (r: ApiError)
        ensures
            r@ == bad_request_view(filter_message(e@)),
    {
        ApiError::bad_request(e.message())
    }
}

} // verus!
