//! List filters: the accepted query parameters of a resource and how each
//! becomes a query operation.
use vstd::prelude::*;

use crate::error::ApiError;
use crate::json::{
    deep_items, entries_get, lemma_deep_items, lemma_deep_items_push, object_get, JsonNumber, JsonValue, JsonView,
    NumberView,
};
use crate::model::{
    find_model_field, lookup_model_field, model_view, FieldType, ModelField, ModelFieldView,
    SqliteValue, SqliteView,
};
use crate::search::{first_match, is_first, lemma_first_match_is, lemma_first_match_none, lemma_first_match_some};
use crate::text::{
    concat, contains_text, f64_text, is_f64_text, parse_i64_text, parse_u32_text, signed_text_value, str_eq, text_contains, to_chars,
    unsigned_text_value,
};

verus! {

/// How a filter compares a column with the given value.
#[derive(Clone, Copy, PartialEq, Eq, Structural, Debug)]
pub enum Lookup {
    Exact,
    Contains,
    Gt,
    Gte,
    Lt,
    Lte,
}

/// A list filter: its frontend name, the model field it reads and its lookup,
/// and where it applies. A filter applies to local queries unless it is
/// remote only; it is forwarded to a remote API, under its remote name when it
/// has one, unless it is local only or remote disabled; a local-only filter
/// applies to the normalized answers of a mapped remote resource.
pub struct Filter {
    pub name: String,
    pub source: String,
    pub lookup: Lookup,
    pub remote_name: Option<String>,
    pub local: bool,
    pub forward: bool,
    pub after_remote: bool,
}

pub struct FilterView {
    pub name: Seq<char>,
    pub source: Seq<char>,
    pub lookup: Lookup,
    pub remote_name: Option<Seq<char>>,
    pub local: bool,
    pub forward: bool,
    pub after_remote: bool,
}

impl View for Filter {
    type V = FilterView;

    open spec fn view(&self) -> FilterView {
        FilterView {
            name: self.name@,
            source: self.source@,
            lookup: self.lookup,
            remote_name: opt_text_view(self.remote_name),
            local: self.local,
            forward: self.forward,
            after_remote: self.after_remote,
        }
    }
}

pub open spec fn opt_text_view(s: Option<String>) -> Option<Seq<char>> {
    match s {
        Some(t) => Some(t@),
        None => None,
    }
}

/// A filter that applies locally and is forwarded under its query name.
pub open spec fn plain_filter(name: Seq<char>, source: Seq<char>, lookup: Lookup) -> FilterView {
    FilterView { name, source, lookup, remote_name: None, local: true, forward: true, after_remote: false }
}

pub open spec fn filters_view(s: Seq<Filter>) -> Seq<FilterView> {
    s.map_values(|f: Filter| f@)
}

/// The suffix a lookup adds to a filter name in a query parameter.
pub open spec fn lookup_suffix(lookup: Lookup) -> Seq<char> {
    match lookup {
        Lookup::Exact => Seq::empty(),
        Lookup::Contains => "__contains"@,
        Lookup::Gt => "__gt"@,
        Lookup::Gte => "__gte"@,
        Lookup::Lt => "__lt"@,
        Lookup::Lte => "__lte"@,
    }
}

/// The query parameter name of a filter: its name and the lookup's suffix.
pub open spec fn query_name_spec(f: FilterView) -> Seq<char> {
    f.name + lookup_suffix(f.lookup)
}

impl Filter {
    pub fn new(name: &str, source: &str, lookup: Lookup) -> (r: Filter)
        ensures
            r@ == plain_filter(name@, source@, lookup),
    {
        Filter {
            name: String::from_str(name),
            source: String::from_str(source),
            lookup,
            remote_name: None,
            local: true,
            forward: true,
            after_remote: false,
        }
    }

    pub fn exact(name: &str) -> (r: Filter)
        ensures
            r@ == plain_filter(name@, name@, Lookup::Exact),
    {
        Filter::new(name, name, Lookup::Exact)
    }

    pub fn contains(name: &str) -> (r: Filter)
        ensures
            r@ == plain_filter(name@, name@, Lookup::Contains),
    {
        Filter::new(name, name, Lookup::Contains)
    }

    pub fn gt(name: &str) -> (r: Filter)
        ensures
            r@ == plain_filter(name@, name@, Lookup::Gt),
    {
        Filter::new(name, name, Lookup::Gt)
    }

    pub fn gte(name: &str) -> (r: Filter)
        ensures
            r@ == plain_filter(name@, name@, Lookup::Gte),
    {
        Filter::new(name, name, Lookup::Gte)
    }

    pub fn lt(name: &str) -> (r: Filter)
        ensures
            r@ == plain_filter(name@, name@, Lookup::Lt),
    {
        Filter::new(name, name, Lookup::Lt)
    }

    pub fn lte(name: &str) -> (r: Filter)
        ensures
            r@ == plain_filter(name@, name@, Lookup::Lte),
    {
        Filter::new(name, name, Lookup::Lte)
    }

    /// An exact filter named `name` on the model field `source`.
    pub fn exact_source(name: &str, source: &str) -> (r: Filter)
        ensures
            r@ == plain_filter(name@, source@, Lookup::Exact),
    {
        Filter::new(name, source, Lookup::Exact)
    }

    /// An exact filter that is forwarded to the remote API and does not
    /// apply locally.
    pub fn remote_only(name: &str) -> (r: Filter)
        ensures
            r@ == (FilterView { local: false, ..plain_filter(name@, name@, Lookup::Exact) }),
    {
        let mut f = Filter::new(name, name, Lookup::Exact);
        f.local = false;
        f
    }

    /// The filter, forwarded to the remote API under another query name.
    pub fn remote(self, remote_name: &str) -> (r: Filter)
        ensures
            r@ == (FilterView { remote_name: Some(remote_name@), ..self@ }),
    {
        let mut f = self;
        f.remote_name = Some(String::from_str(remote_name));
        f
    }

    /// The filter, not forwarded to the remote API: it applies to the
    /// normalized answers of a mapped remote resource.
    pub fn local_only(self) -> (r: Filter)
        ensures
            r@ == (FilterView { forward: false, after_remote: true, ..self@ }),
    {
        let mut f = self;
        f.forward = false;
        f.after_remote = true;
        f
    }

    /// The filter, applied to local queries only: it is not forwarded to the
    /// remote API.
    pub fn remote_disabled(self) -> (r: Filter)
        ensures
            r@ == (FilterView { forward: false, after_remote: false, ..self@ }),
    {
        let mut f = self;
        f.forward = false;
        f.after_remote = false;
        f
    }

    /// The query parameter name, such as `name__contains` or `id__gte`.
    pub fn query_name(&self) -> (r: String)
        ensures
            r@ == query_name_spec(self@),
    {
        match self.lookup {
            Lookup::Exact => self.name.clone(),
            Lookup::Contains => concat(self.name.as_str(), "__contains"),
            Lookup::Gt => concat(self.name.as_str(), "__gt"),
            Lookup::Gte => concat(self.name.as_str(), "__gte"),
            Lookup::Lt => concat(self.name.as_str(), "__lt"),
            Lookup::Lte => concat(self.name.as_str(), "__lte"),
        }
    }
}

/// Why a list parameter was refused.
pub enum FilterError {
    UnknownFilter(String),
    UnknownOrdering(String),
    InvalidValue { field: String, expected: &'static str },
    InvalidLookup(String),
    InvalidModelField(String),
}

pub enum FilterErrorView {
    UnknownFilter(Seq<char>),
    UnknownOrdering(Seq<char>),
    InvalidValue(Seq<char>, Seq<char>),
    InvalidLookup(Seq<char>),
    InvalidModelField(Seq<char>),
}

impl View for FilterError {
    type V = FilterErrorView;

    open spec fn view(&self) -> FilterErrorView {
        match self {
            FilterError::UnknownFilter(s) => FilterErrorView::UnknownFilter(s@),
            FilterError::UnknownOrdering(s) => FilterErrorView::UnknownOrdering(s@),
            FilterError::InvalidValue { field, expected } => FilterErrorView::InvalidValue(field@, expected@),
            FilterError::InvalidLookup(s) => FilterErrorView::InvalidLookup(s@),
            FilterError::InvalidModelField(s) => FilterErrorView::InvalidModelField(s@),
        }
    }
}

/// The text of a filter error, as its `Display` writes it.
pub open spec fn filter_message(e: FilterErrorView) -> Seq<char> {
    match e {
        FilterErrorView::UnknownFilter(s) => "unknown filter: "@ + s,
        FilterErrorView::UnknownOrdering(s) => "unknown ordering field: "@ + s,
        FilterErrorView::InvalidValue(f, x) => "invalid filter value for "@ + f + ", expected "@ + x,
        FilterErrorView::InvalidLookup(s) => "invalid lookup for field: "@ + s,
        FilterErrorView::InvalidModelField(s) => "invalid model field: "@ + s,
    }
}

impl FilterError {
    /// The text of the error.
    pub fn message(&self) -> (r: String)
        ensures
            r@ == filter_message(self@),
    {
        match self {
            FilterError::UnknownFilter(s) => concat("unknown filter: ", s.as_str()),
            FilterError::UnknownOrdering(s) => concat("unknown ordering field: ", s.as_str()),
            FilterError::InvalidValue { field, expected } => {
                let mut m = concat("invalid filter value for ", field.as_str());
                m.append(", expected ");
                m.append(expected);
                m
            },
            FilterError::InvalidLookup(s) => concat("invalid lookup for field: ", s.as_str()),
            FilterError::InvalidModelField(s) => concat("invalid model field: ", s.as_str()),
        }
    }
}

/// `"true"` and `"1"` read as true, `"false"` and `"0"` as false.
pub open spec fn parse_bool_spec(s: Seq<char>) -> Option<bool> {
    if s == "true"@ || s == "1"@ {
        Some(true)
    } else if s == "false"@ || s == "0"@ {
        Some(false)
    } else {
        None
    }
}

/// Reads a boolean filter value.
pub fn parse_bool(value: &str) -> (r: Option<bool>)
    ensures
        r == parse_bool_spec(value@),
{
    if str_eq(value, "true") || str_eq(value, "1") {
        Some(true)
    } else if str_eq(value, "false") || str_eq(value, "0") {
        Some(false)
    } else {
        None
    }
}

/// The `u32` that `str::parse` reads, if any.
pub open spec fn u32_value(s: Seq<char>) -> Option<u32> {
    match unsigned_text_value(s) {
        Some(n) => if n <= u32::MAX {
            Some(n as u32)
        } else {
            None
        },
        None => None,
    }
}

/// The `i64` that `str::parse` reads, if any.
pub open spec fn i64_value(s: Seq<char>) -> Option<i64> {
    match signed_text_value(s) {
        Some(n) => if i64::MIN <= n <= i64::MAX {
            Some(n as i64)
        } else {
            None
        },
        None => None,
    }
}

/// Reads a `limit` or `offset` parameter.
pub fn parse_u32(field: &str, value: &str) -> (r: Result<u32, FilterError>)
    ensures
        match r {
            Ok(n) => u32_value(value@) == Some(n),
            Err(e) => u32_value(value@) is None && e@ == FilterErrorView::InvalidValue(field@, "positive integer"@),
        },
{
    match parse_u32_text(value) {
        Some(n) => Ok(n),
        None => Err(FilterError::InvalidValue { field: String::from_str(field), expected: "positive integer" }),
    }
}

/// A parsed filter value. A real number keeps its text, checked to be a
/// number `str::parse::<f64>` reads: it is read as a float where the query
/// is built.
pub enum FilterValue {
    Value(SqliteValue),
    RealText(String),
}

pub enum FilterValueView {
    Value(SqliteView),
    RealText(Seq<char>),
}

impl View for FilterValue {
    type V = FilterValueView;

    open spec fn view(&self) -> FilterValueView {
        match self {
            FilterValue::Value(v) => FilterValueView::Value(v@),
            FilterValue::RealText(s) => FilterValueView::RealText(s@),
        }
    }
}

pub type FilterValueResult = Result<FilterValueView, FilterErrorView>;

/// The value of a filter parameter for a column of the field's type.
pub open spec fn parse_value_spec(mf: ModelFieldView, value: Seq<char>) -> FilterValueResult {
    match mf.ty {
        FieldType::Integer => match i64_value(value) {
            Some(i) => Ok(FilterValueView::Value(SqliteView::I64(i))),
            None => Err(FilterErrorView::InvalidValue(mf.rust_name, "integer"@)),
        },
        FieldType::Text => Ok(FilterValueView::Value(SqliteView::Str(value))),
        FieldType::Boolean => match parse_bool_spec(value) {
            Some(b) => Ok(FilterValueView::Value(SqliteView::Bool(b))),
            None => Err(FilterErrorView::InvalidValue(mf.rust_name, "boolean"@)),
        },
        FieldType::Real => if f64_text(value) {
            Ok(FilterValueView::RealText(value))
        } else {
            Err(FilterErrorView::InvalidValue(mf.rust_name, "number"@))
        },
    }
}

/// Reads a filter parameter for a column of the field's type.
pub fn parse_value(field: &ModelField, value: &str) -> (r: Result<FilterValue, FilterError>)
    ensures
        match r {
            Ok(v) => parse_value_spec(field@, value@) == FilterValueResult::Ok(v@),
            Err(e) => parse_value_spec(field@, value@) == FilterValueResult::Err(e@),
        },
{
    match field.ty {
        FieldType::Integer => match parse_i64_text(value) {
            Some(i) => Ok(FilterValue::Value(SqliteValue::I64(i))),
            None => Err(FilterError::InvalidValue { field: field.rust_name.clone(), expected: "integer" }),
        },
        FieldType::Text => Ok(FilterValue::Value(SqliteValue::String(String::from_str(value)))),
        FieldType::Boolean => match parse_bool(value) {
            Some(b) => Ok(FilterValue::Value(SqliteValue::Bool(b))),
            None => Err(FilterError::InvalidValue { field: field.rust_name.clone(), expected: "boolean" }),
        },
        FieldType::Real => if is_f64_text(value) {
            Ok(FilterValue::RealText(String::from_str(value)))
        } else {
            Err(FilterError::InvalidValue { field: field.rust_name.clone(), expected: "number" })
        },
    }
}

/// Whether a lookup applies to a column type: `exact` to every column,
/// `contains` to text, and the comparisons to numbers.
pub open spec fn lookup_fits(ty: FieldType, lookup: Lookup) -> bool {
    match lookup {
        Lookup::Exact => true,
        Lookup::Contains => ty == FieldType::Text,
        _ => ty == FieldType::Integer || ty == FieldType::Real,
    }
}

/// Checks that the lookup applies to the field's column type.
pub fn validate_lookup(field: &ModelField, lookup: Lookup) -> (r: Result<(), FilterError>)
    ensures
        r is Ok <==> lookup_fits(field@.ty, lookup),
        r matches Err(e) ==> e@ == FilterErrorView::InvalidLookup(field@.rust_name),
{
    let ok = match lookup {
        Lookup::Exact => true,
        Lookup::Contains => field.ty == FieldType::Text,
        _ => field.ty == FieldType::Integer || field.ty == FieldType::Real,
    };
    if ok {
        Ok(())
    } else {
        Err(FilterError::InvalidLookup(field.rust_name.clone()))
    }
}

/// One operation of a list query.
pub enum QueryOp {
    Limit(u32),
    Offset(u32),
    /// Order by a column; a leading `-` orders descending.
    OrderBy(String),
    Where { source: String, lookup: Lookup, value: FilterValue },
}

pub enum QueryOpView {
    Limit(u32),
    Offset(u32),
    OrderBy(Seq<char>),
    Where(Seq<char>, Lookup, FilterValueView),
}

impl View for QueryOp {
    type V = QueryOpView;

    open spec fn view(&self) -> QueryOpView {
        match self {
            QueryOp::Limit(n) => QueryOpView::Limit(*n),
            QueryOp::Offset(n) => QueryOpView::Offset(*n),
            QueryOp::OrderBy(s) => QueryOpView::OrderBy(s@),
            QueryOp::Where { source, lookup, value } => QueryOpView::Where(source@, *lookup, value@),
        }
    }
}

pub open spec fn ops_view(s: Seq<QueryOp>) -> Seq<QueryOpView> {
    s.map_values(|o: QueryOp| o@)
}

pub type OpResult = Result<QueryOpView, FilterErrorView>;

pub type OpsResult = Result<Seq<QueryOpView>, FilterErrorView>;

pub open spec fn named(name: Seq<char>) -> spec_fn(FilterView) -> bool {
    |f: FilterView| f.name == name
}

pub open spec fn queried_as(name: Seq<char>) -> spec_fn(FilterView) -> bool {
    |f: FilterView| query_name_spec(f) == name
}

/// The ordering a parameter asks for: a filter name, with a leading `-` for
/// descending order, ordering by the filter's model field.
pub open spec fn ordering_spec(filters: Seq<FilterView>, model: Seq<ModelFieldView>, value: Seq<char>) -> OpResult {
    let desc = value.len() > 0 && value[0] == '-';
    let field = if desc {
        value.skip(1)
    } else {
        value
    };
    match first_match(filters, named(field)) {
        None => Err(FilterErrorView::UnknownOrdering(field)),
        Some(i) => {
            let source = filters[i].source;
            match lookup_model_field(model, source) {
                None => Err(FilterErrorView::InvalidModelField(source)),
                Some(_) => Ok(
                    QueryOpView::OrderBy(
                        if desc {
                            seq!['-'] + source
                        } else {
                            source
                        },
                    ),
                ),
            }
        },
    }
}

/// The operation one list parameter asks for.
pub open spec fn param_spec(
    filters: Seq<FilterView>,
    model: Seq<ModelFieldView>,
    name: Seq<char>,
    value: Seq<char>,
) -> OpResult {
    if name == "ordering"@ {
        ordering_spec(filters, model, value)
    } else if name == "limit"@ {
        match u32_value(value) {
            Some(n) => Ok(QueryOpView::Limit(n)),
            None => Err(FilterErrorView::InvalidValue("limit"@, "positive integer"@)),
        }
    } else if name == "offset"@ {
        match u32_value(value) {
            Some(n) => Ok(QueryOpView::Offset(n)),
            None => Err(FilterErrorView::InvalidValue("offset"@, "positive integer"@)),
        }
    } else {
        match first_match(filters, queried_as(name)) {
            None => Err(FilterErrorView::UnknownFilter(name)),
            Some(i) => {
                let f = filters[i];
                match lookup_model_field(model, f.source) {
                    None => Err(FilterErrorView::InvalidModelField(f.source)),
                    Some(mf) => if !lookup_fits(mf.ty, f.lookup) {
                        Err(FilterErrorView::InvalidLookup(mf.rust_name))
                    } else {
                        match parse_value_spec(mf, value) {
                            Err(e) => Err(e),
                            Ok(v) => Ok(QueryOpView::Where(f.source, f.lookup, v)),
                        }
                    },
                }
            },
        }
    }
}

/// The operations of the parameters in order, or the first error.
pub open spec fn apply_spec(
    filters: Seq<FilterView>,
    model: Seq<ModelFieldView>,
    params: Seq<(Seq<char>, Seq<char>)>,
) -> OpsResult
    decreases params.len(),
{
    if params.len() == 0 {
        Ok(Seq::empty())
    } else {
        match apply_spec(filters, model, params.drop_last()) {
            Err(e) => Err(e),
            Ok(acc) => match param_spec(filters, model, params.last().0, params.last().1) {
                Err(e) => Err(e),
                Ok(op) => Ok(acc.push(op)),
            },
        }
    }
}

pub open spec fn params_view(s: Seq<(String, String)>) -> Seq<(Seq<char>, Seq<char>)> {
    s.map_values(|p: (String, String)| (p.0@, p.1@))
}

proof fn lemma_apply_err(
    filters: Seq<FilterView>,
    model: Seq<ModelFieldView>,
    params: Seq<(Seq<char>, Seq<char>)>,
    n: int,
    e: FilterErrorView,
)
    requires
        0 <= n <= params.len(),
        apply_spec(filters, model, params.take(n)) == OpsResult::Err(e),
    ensures
        apply_spec(filters, model, params) == OpsResult::Err(e),
    decreases params.len() - n,
{
    if n < params.len() {
        assert(params.take(n + 1).drop_last() =~= params.take(n));
        lemma_apply_err(filters, model, params, n + 1, e);
    } else {
        assert(params.take(n) =~= params);
    }
}

/// The parameters that fix the page or the order of a list.
pub open spec fn reserved_param(name: Seq<char>) -> bool {
    name == "ordering"@ || name == "limit"@ || name == "offset"@
}

/// Whether a parameter names a filter that does not apply to local queries.
pub open spec fn skipped_locally(filters: Seq<FilterView>, name: Seq<char>) -> bool {
    !reserved_param(name) && (first_match(filters, queried_as(name)) matches Some(i) && !filters[i].local)
}

/// The parameters a local query reads: all but those of remote-only filters.
pub open spec fn local_params(filters: Seq<FilterView>, params: Seq<(Seq<char>, Seq<char>)>) -> Seq<(Seq<char>, Seq<char>)>
    decreases params.len(),
{
    if params.len() == 0 {
        Seq::empty()
    } else {
        let acc = local_params(filters, params.drop_last());
        if skipped_locally(filters, params.last().0) {
            acc
        } else {
            acc.push(params.last())
        }
    }
}

/// The name and value under which a list parameter is forwarded to a remote
/// API: `ordering` under the remote ordering name, a filter's parameter
/// under its remote name, unless the filter is not forwarded; other
/// parameters pass unchanged.
pub open spec fn remote_param(
    filters: Seq<FilterView>,
    remote_ordering: Option<Seq<char>>,
    name: Seq<char>,
    value: Seq<char>,
) -> Option<(Seq<char>, Seq<char>)> {
    if name == "ordering"@ {
        Some(
            (
                match remote_ordering {
                    Some(o) => o,
                    None => name,
                },
                value,
            ),
        )
    } else if reserved_param(name) {
        Some((name, value))
    } else {
        match first_match(filters, queried_as(name)) {
            Some(i) => if filters[i].forward {
                Some(
                    (
                        match filters[i].remote_name {
                            Some(r) => r,
                            None => name,
                        },
                        value,
                    ),
                )
            } else {
                None
            },
            None => Some((name, value)),
        }
    }
}

/// The parameters forwarded to a remote API, in order.
pub open spec fn remote_params_spec(
    filters: Seq<FilterView>,
    remote_ordering: Option<Seq<char>>,
    params: Seq<(Seq<char>, Seq<char>)>,
) -> Seq<(Seq<char>, Seq<char>)>
    decreases params.len(),
{
    if params.len() == 0 {
        Seq::empty()
    } else {
        let acc = remote_params_spec(filters, remote_ordering, params.drop_last());
        match remote_param(filters, remote_ordering, params.last().0, params.last().1) {
            Some(p) => acc.push(p),
            None => acc,
        }
    }
}

/// Whether a JSON value meets a lookup against a parameter text: text is
/// compared as text, booleans and integers as the values the text reads as;
/// `contains` looks for the text in a text value, and the comparisons
/// compare integers.
pub open spec fn json_lookup(lookup: Lookup, v: JsonView, text: Seq<char>) -> bool {
    match lookup {
        Lookup::Exact => match v {
            JsonView::Str(s) => s == text,
            JsonView::Bool(b) => parse_bool_spec(text) == Some(b),
            JsonView::Number(n) => match n {
                NumberView::Float(t) => t == text,
                _ => n.as_i64() is Some && i64_value(text) == n.as_i64(),
            },
            _ => false,
        },
        Lookup::Contains => match v {
            JsonView::Str(s) => contains_text(s, text),
            _ => false,
        },
        _ => match (v.as_i64(), i64_value(text)) {
            (Some(a), Some(b)) => match lookup {
                Lookup::Gt => a > b,
                Lookup::Gte => a >= b,
                Lookup::Lt => a < b,
                _ => a <= b,
            },
            _ => false,
        },
    }
}

/// The filter that a parameter asks to apply to normalized remote answers.
pub open spec fn after_remote_filter(filters: Seq<FilterView>, name: Seq<char>) -> Option<FilterView> {
    if reserved_param(name) {
        None
    } else {
        match first_match(filters, queried_as(name)) {
            Some(i) => if filters[i].after_remote {
                Some(filters[i])
            } else {
                None
            },
            None => None,
        }
    }
}

/// Whether an answer item meets a filter: it is an object whose entry under
/// the filter's name meets the lookup.
pub open spec fn item_matches(f: FilterView, text: Seq<char>, item: JsonView) -> bool {
    match item {
        JsonView::Object(o) => match entries_get(o, f.name) {
            Some(v) => json_lookup(f.lookup, v, text),
            None => false,
        },
        _ => false,
    }
}

/// Whether an answer item meets every local-only filter that the parameters ask for.
pub open spec fn keeps_item(filters: Seq<FilterView>, params: Seq<(Seq<char>, Seq<char>)>, item: JsonView) -> bool {
    forall|k: int| 0 <= k < params.len() ==> (after_remote_filter(filters, #[trigger] params[k].0) matches Some(f)
        ==> item_matches(f, params[k].1, item))
}

/// The answer items that meet the local-only filters, in order.
pub open spec fn kept_items(filters: Seq<FilterView>, params: Seq<(Seq<char>, Seq<char>)>, items: Seq<JsonView>) -> Seq<JsonView>
    decreases items.len(),
{
    if items.len() == 0 {
        Seq::empty()
    } else {
        let acc = kept_items(filters, params, items.drop_last());
        if keeps_item(filters, params, items.last()) {
            acc.push(items.last())
        } else {
            acc
        }
    }
}

/// Filtering the normalized items of a mapped answer keeps exactly the items
/// that meet the local-only filters the parameters ask for, in their order;
/// where the parameters ask for no local-only filter, every item is kept.
pub proof fn law_local_only_filters_keep_matching_items(
    filters: Seq<FilterView>,
    params: Seq<(Seq<char>, Seq<char>)>,
    items: Seq<JsonView>,
)
    ensures
        kept_items(filters, params, items).len() <= items.len(),
        forall|i: int| 0 <= i < kept_items(filters, params, items).len()
            ==> keeps_item(filters, params, #[trigger] kept_items(filters, params, items)[i])
                && items.contains(kept_items(filters, params, items)[i]),
        forall|j: int| 0 <= j < items.len() && keeps_item(filters, params, #[trigger] items[j])
            ==> kept_items(filters, params, items).contains(items[j]),
        (forall|k: int| 0 <= k < params.len() ==> after_remote_filter(filters, #[trigger] params[k].0) is None)
            ==> kept_items(filters, params, items) == items,
    decreases items.len(),
{
    if items.len() > 0 {
        let d = items.drop_last();
        let x = items.last();
        law_local_only_filters_keep_matching_items(filters, params, d);
        let acc = kept_items(filters, params, d);
        let r = kept_items(filters, params, items);
        assert forall|i: int| 0 <= i < r.len() implies keeps_item(filters, params, #[trigger] r[i]) && items.contains(r[i]) by {
            if i < acc.len() {
                assert(r[i] == acc[i]);
                let j = choose|j: int| 0 <= j < d.len() && d[j] == acc[i];
                assert(items[j] == d[j]);
            } else {
                assert(r[i] == x);
                assert(items[items.len() - 1] == x);
            }
        }
        assert forall|j: int| 0 <= j < items.len() && keeps_item(filters, params, #[trigger] items[j]) implies r.contains(items[j]) by {
            if j < d.len() {
                assert(d[j] == items[j]);
                let i = choose|i: int| 0 <= i < acc.len() && acc[i] == d[j];
                if keeps_item(filters, params, x) {
                    assert(r[i] == acc[i]);
                }
            } else {
                assert(items[j] == x);
                assert(r[r.len() - 1] == x);
            }
        }
        if forall|k: int| 0 <= k < params.len() ==> after_remote_filter(filters, #[trigger] params[k].0) is None {
            assert(keeps_item(filters, params, x));
            assert(items =~= d.push(x));
        }
    }
}

/// Whether a JSON value meets a lookup against a parameter text.
pub fn json_lookup_matches(lookup: Lookup, v: &JsonValue, text: &str) -> (r: bool)
    ensures
        r == json_lookup(lookup, v@, text@),
{
    match lookup {
        Lookup::Exact => match v {
            JsonValue::String(s) => str_eq(s.as_str(), text),
            JsonValue::Bool(b) => match parse_bool(text) {
                Some(x) => x == *b,
                None => false,
            },
            JsonValue::Number(JsonNumber::Float(t)) => str_eq(t.as_str(), text),
            JsonValue::Number(_) => match (v.as_i64(), parse_i64_text(text)) {
                (Some(a), Some(b)) => a == b,
                _ => false,
            },
            _ => false,
        },
        Lookup::Contains => match v {
            JsonValue::String(s) => text_contains(s.as_str(), text),
            _ => false,
        },
        _ => match (v.as_i64(), parse_i64_text(text)) {
            (Some(a), Some(b)) => match lookup {
                Lookup::Gt => a > b,
                Lookup::Gte => a >= b,
                Lookup::Lt => a < b,
                _ => a <= b,
            },
            _ => false,
        },
    }
}

/// The filters of a resource and the metadata of its model.
pub struct FilterSet {
    pub filters: Vec<Filter>,
    pub model: Vec<ModelField>,
    /// The remote query parameter that the `ordering` parameter is forwarded as.
    pub remote_ordering: Option<String>,
}

impl FilterSet {
    pub open spec fn filters_spec(&self) -> Seq<FilterView> {
        filters_view(self.filters@)
    }

    pub open spec fn model_spec(&self) -> Seq<ModelFieldView> {
        model_view(self.model@)
    }

    pub open spec fn remote_ordering_spec(&self) -> Option<Seq<char>> {
        opt_text_view(self.remote_ordering)
    }

    pub fn new(filters: Vec<Filter>, model: Vec<ModelField>) -> (r: FilterSet)
        ensures
            r.filters@ == filters@,
            r.model@ == model@,
            r.remote_ordering is None,
    {
        FilterSet { filters, model, remote_ordering: None }
    }

    /// The filter set, forwarding `ordering` to the remote API under another name.
    pub fn remote_ordering(self, name: &str) -> (r: FilterSet)
        ensures
            r.filters@ == self.filters@,
            r.model@ == self.model@,
            r.remote_ordering_spec() == Some(name@),
    {
        FilterSet { filters: self.filters, model: self.model, remote_ordering: Some(String::from_str(name)) }
    }

    pub fn filters(&self) -> (r: &Vec<Filter>)
        ensures
            r@ == self.filters@,
    {
        &self.filters
    }

    fn find_named(&self, name: &str) -> (r: Option<&Filter>)
        ensures
            match r {
                Some(f) => first_match(self.filters_spec(), named(name@)) matches Some(i) && self.filters_spec()[i] == f@,
                None => first_match(self.filters_spec(), named(name@)) is None,
            },
    {
        let ghost fv = self.filters_spec();
        let mut i: usize = 0;
        while i < self.filters.len()
            invariant
                i <= self.filters.len(),
                fv == self.filters_spec(),
                forall|j: int| 0 <= j < i ==> !named(name@)(#[trigger] fv[j]),
            decreases self.filters.len() - i,
        {
            if str_eq(self.filters[i].name.as_str(), name) {
                proof {
                    lemma_first_match_is(fv, named(name@), i as int);
                }
                return Some(&self.filters[i]);
            }
            i = i + 1;
        }
        proof {
            lemma_first_match_none(fv, named(name@));
        }
        None
    }

    fn find_queried(&self, name: &str) -> (r: Option<&Filter>)
        ensures
            match r {
                Some(f) => first_match(self.filters_spec(), queried_as(name@)) matches Some(i) && self.filters_spec()[i] == f@,
                None => first_match(self.filters_spec(), queried_as(name@)) is None,
            },
    {
        let ghost fv = self.filters_spec();
        let mut i: usize = 0;
        while i < self.filters.len()
            invariant
                i <= self.filters.len(),
                fv == self.filters_spec(),
                forall|j: int| 0 <= j < i ==> !queried_as(name@)(#[trigger] fv[j]),
            decreases self.filters.len() - i,
        {
            let q = self.filters[i].query_name();
            if str_eq(q.as_str(), name) {
                proof {
                    lemma_first_match_is(fv, queried_as(name@), i as int);
                }
                return Some(&self.filters[i]);
            }
            i = i + 1;
        }
        proof {
            lemma_first_match_none(fv, queried_as(name@));
        }
        None
    }

    /// The ordering operation for an `ordering` parameter.
    pub fn apply_ordering(&self, value: &str) -> (r: Result<QueryOp, FilterError>)
        ensures
            match r {
                Ok(op) => ordering_spec(self.filters_spec(), self.model_spec(), value@) == OpResult::Ok(op@),
                Err(e) => ordering_spec(self.filters_spec(), self.model_spec(), value@) == OpResult::Err(e@),
            },
    {
        let cs = to_chars(value);
        let desc = cs.len() > 0 && cs[0] == '-';
        let field = if desc {
            let mut t = String::new();
            let rest = crate::text::chars_range(&cs, 1, cs.len());
            crate::text::push_chars(&mut t, &rest);
            assert(t@ =~= value@.skip(1));
            t
        } else {
            String::from_str(value)
        };
        let f = match self.find_named(field.as_str()) {
            None => {
                return Err(FilterError::UnknownOrdering(field));
            },
            Some(f) => f,
        };
        match find_model_field(&self.model, f.source.as_str()) {
            None => {
                return Err(FilterError::InvalidModelField(f.source.clone()));
            },
            Some(_) => {},
        }
        if desc {
            let s = concat("-", f.source.as_str());
            proof {
                reveal_strlit("-");
                assert("-"@ =~= seq!['-']);
            }
            Ok(QueryOp::OrderBy(s))
        } else {
            Ok(QueryOp::OrderBy(f.source.clone()))
        }
    }

    fn apply_param(&self, name: &str, value: &str) -> (r: Result<QueryOp, FilterError>)
        ensures
            match r {
                Ok(op) => param_spec(self.filters_spec(), self.model_spec(), name@, value@) == OpResult::Ok(op@),
                Err(e) => param_spec(self.filters_spec(), self.model_spec(), name@, value@) == OpResult::Err(e@),
            },
    {
        if str_eq(name, "ordering") {
            self.apply_ordering(value)
        } else if str_eq(name, "limit") {
            match parse_u32("limit", value) {
                Ok(n) => Ok(QueryOp::Limit(n)),
                Err(e) => Err(e),
            }
        } else if str_eq(name, "offset") {
            match parse_u32("offset", value) {
                Ok(n) => Ok(QueryOp::Offset(n)),
                Err(e) => Err(e),
            }
        } else {
            let f = match self.find_queried(name) {
                None => {
                    return Err(FilterError::UnknownFilter(String::from_str(name)));
                },
                Some(f) => f,
            };
            let mf = match find_model_field(&self.model, f.source.as_str()) {
                None => {
                    return Err(FilterError::InvalidModelField(f.source.clone()));
                },
                Some(mf) => mf,
            };
            match validate_lookup(mf, f.lookup) {
                Err(e) => {
                    return Err(e);
                },
                Ok(()) => {},
            }
            match parse_value(mf, value) {
                Err(e) => Err(e),
                Ok(v) => Ok(QueryOp::Where { source: f.source.clone(), lookup: f.lookup, value: v }),
            }
        }
    }

    /// The parameters forwarded to a remote API, in order.
    pub fn remote_params(&self, params: &Vec<(String, String)>) -> (r: Vec<(String, String)>)
        ensures
            params_view(r@) == remote_params_spec(self.filters_spec(), self.remote_ordering_spec(), params_view(params@)),
    {
        let ghost pv = params_view(params@);
        let mut out: Vec<(String, String)> = Vec::new();
        proof {
            assert(pv.take(0) =~= Seq::<(Seq<char>, Seq<char>)>::empty());
            assert(params_view(out@) =~= Seq::<(Seq<char>, Seq<char>)>::empty());
        }
        let mut i: usize = 0;
        while i < params.len()
            invariant
                i <= params.len(),
                pv == params_view(params@),
                params_view(out@) == remote_params_spec(self.filters_spec(), self.remote_ordering_spec(), pv.take(i as int)),
            decreases params.len() - i,
        {
            proof {
                assert(pv.take(i + 1).drop_last() =~= pv.take(i as int));
                assert(pv.take(i + 1).last() == (params@[i as int].0@, params@[i as int].1@));
            }
            let name = params[i].0.as_str();
            let value = &params[i].1;
            let forwarded: Option<(String, String)> = if str_eq(name, "ordering") {
                match &self.remote_ordering {
                    Some(o) => Some((o.clone(), value.clone())),
                    None => Some((String::from_str(name), value.clone())),
                }
            } else if str_eq(name, "limit") || str_eq(name, "offset") {
                Some((String::from_str(name), value.clone()))
            } else {
                match self.find_queried(name) {
                    Some(f) => if f.forward {
                        match &f.remote_name {
                            Some(rn) => Some((rn.clone(), value.clone())),
                            None => Some((String::from_str(name), value.clone())),
                        }
                    } else {
                        None
                    },
                    None => Some((String::from_str(name), value.clone())),
                }
            };
            match forwarded {
                Some(p) => {
                    let ghost before = out@;
                    let ghost pv2 = (p.0@, p.1@);
                    out.push(p);
                    proof {
                        assert(params_view(out@) =~= params_view(before).push(pv2));
                    }
                },
                None => {},
            }
            i = i + 1;
        }
        proof {
            assert(pv.take(params.len() as int) =~= pv);
        }
        out
    }

    /// Whether an answer item meets every local-only filter that the parameters ask for.
    pub fn keeps(&self, params: &Vec<(String, String)>, item: &JsonValue) -> (r: bool)
        ensures
            r == keeps_item(self.filters_spec(), params_view(params@), item@),
    {
        let ghost pv = params_view(params@);
        let mut i: usize = 0;
        while i < params.len()
            invariant
                i <= params.len(),
                pv == params_view(params@),
                forall|k: int| 0 <= k < i ==> (after_remote_filter(self.filters_spec(), #[trigger] pv[k].0) matches Some(f)
                    ==> item_matches(f, pv[k].1, item@)),
            decreases params.len() - i,
        {
            let name = params[i].0.as_str();
            assert(pv[i as int] == (params@[i as int].0@, params@[i as int].1@));
            let reserved = str_eq(name, "ordering") || str_eq(name, "limit") || str_eq(name, "offset");
            if !reserved {
                match self.find_queried(name) {
                    Some(f) => if f.after_remote {
                        let ok = match item.as_object() {
                            Some(o) => match object_get(o, f.name.as_str()) {
                                Some(v) => json_lookup_matches(f.lookup, v, params[i].1.as_str()),
                                None => false,
                            },
                            None => false,
                        };
                        if !ok {
                            assert(after_remote_filter(self.filters_spec(), pv[i as int].0) == Some(f@));
                            assert(!item_matches(f@, pv[i as int].1, item@));
                            return false;
                        }
                    },
                    None => {},
                }
            }
            i = i + 1;
        }
        true
    }

    /// The answer items that meet the local-only filters, in order.
    pub fn keep_after_remote(&self, params: &Vec<(String, String)>, items: Vec<JsonValue>) -> (r: Vec<JsonValue>)
        ensures
            deep_items(r@) == kept_items(self.filters_spec(), params_view(params@), deep_items(items@)),
    {
        let ghost iv = deep_items(items@);
        proof {
            lemma_deep_items(items@);
            assert(iv.take(0) =~= Seq::<JsonView>::empty());
        }
        let mut out: Vec<JsonValue> = Vec::new();
        let mut i: usize = 0;
        while i < items.len()
            invariant
                i <= items.len(),
                iv == deep_items(items@),
                iv.len() == items@.len(),
                forall|j: int| 0 <= j < items@.len() ==> #[trigger] iv[j] == items@[j].deep(),
                deep_items(out@) == kept_items(self.filters_spec(), params_view(params@), iv.take(i as int)),
            decreases items.len() - i,
        {
            proof {
                assert(iv.take(i + 1).drop_last() =~= iv.take(i as int));
                assert(iv.take(i + 1).last() == items@[i as int].deep());
            }
            if self.keeps(params, &items[i]) {
                let x = items[i].copy_value();
                proof {
                    lemma_deep_items_push(out@, x);
                }
                out.push(x);
            }
            i = i + 1;
        }
        proof {
            assert(iv.take(items.len() as int) =~= iv);
        }
        out
    }

    /// Whether a parameter names a filter that does not apply locally.
    fn skips_locally(&self, name: &str) -> (r: bool)
        ensures
            r == skipped_locally(self.filters_spec(), name@),
    {
        if str_eq(name, "ordering") || str_eq(name, "limit") || str_eq(name, "offset") {
            return false;
        }
        match self.find_queried(name) {
            Some(f) => !f.local,
            None => false,
        }
    }

    /// The parameters that a local query reads.
    fn local_query_params(&self, params: &Vec<(String, String)>) -> (r: Vec<(String, String)>)
        ensures
            params_view(r@) == local_params(self.filters_spec(), params_view(params@)),
    {
        let ghost pv = params_view(params@);
        let mut out: Vec<(String, String)> = Vec::new();
        proof {
            assert(pv.take(0) =~= Seq::<(Seq<char>, Seq<char>)>::empty());
            assert(params_view(out@) =~= Seq::<(Seq<char>, Seq<char>)>::empty());
        }
        let mut i: usize = 0;
        while i < params.len()
            invariant
                i <= params.len(),
                pv == params_view(params@),
                params_view(out@) == local_params(self.filters_spec(), pv.take(i as int)),
            decreases params.len() - i,
        {
            proof {
                assert(pv.take(i + 1).drop_last() =~= pv.take(i as int));
                assert(pv.take(i + 1).last() == (params@[i as int].0@, params@[i as int].1@));
            }
            if !self.skips_locally(params[i].0.as_str()) {
                let ghost before = out@;
                let item = (params[i].0.clone(), params[i].1.clone());
                out.push(item);
                proof {
                    assert(params_view(out@) =~= params_view(before).push((params@[i as int].0@, params@[i as int].1@)));
                }
            }
            i = i + 1;
        }
        proof {
            assert(pv.take(params.len() as int) =~= pv);
        }
        out
    }

    /// The query operations of the list parameters, in order, leaving out the
    /// parameters of filters that do not apply locally; the first refused
    /// parameter answers as a bad request.
    pub fn apply(&self, params: &Vec<(String, String)>) -> (r: Result<Vec<QueryOp>, ApiError>)
        ensures
            match apply_spec(self.filters_spec(), self.model_spec(), local_params(self.filters_spec(), params_view(params@))) {
                Ok(ops) => r matches Ok(v) && ops_view(v@) == ops,
                Err(e) => r matches Err(a) && a@ == crate::error::bad_request_view(filter_message(e)),
            },
    {
        let kept = self.local_query_params(params);
        self.apply_all(&kept)
    }

    fn apply_all(&self, params: &Vec<(String, String)>) -> (r: Result<Vec<QueryOp>, ApiError>)
        ensures
            match apply_spec(self.filters_spec(), self.model_spec(), params_view(params@)) {
                Ok(ops) => r matches Ok(v) && ops_view(v@) == ops,
                Err(e) => r matches Err(a) && a@ == crate::error::bad_request_view(filter_message(e)),
            },
    {
        let ghost pv = params_view(params@);
        let mut out: Vec<QueryOp> = Vec::new();
        proof {
            assert(pv.take(0) =~= Seq::<(Seq<char>, Seq<char>)>::empty());
            assert(ops_view(out@) =~= Seq::<QueryOpView>::empty());
        }
        let mut i: usize = 0;
        while i < params.len()
            invariant
                i <= params.len(),
                pv == params_view(params@),
                apply_spec(self.filters_spec(), self.model_spec(), pv.take(i as int)) == OpsResult::Ok(ops_view(out@)),
            decreases params.len() - i,
        {
            proof {
                assert(pv.take(i + 1).drop_last() =~= pv.take(i as int));
                assert(pv.take(i + 1).last() == (params@[i as int].0@, params@[i as int].1@));
            }
            match self.apply_param(params[i].0.as_str(), params[i].1.as_str()) {
                Err(e) => {
                    proof {
                        lemma_apply_err(self.filters_spec(), self.model_spec(), pv, i + 1, e@);
                    }
                    return Err(ApiError::from_filter(&e));
                },
                Ok(op) => {
                    let ghost before = out@;
                    let ghost ov = op@;
                    out.push(op);
                    proof {
                        assert(ops_view(out@) =~= ops_view(before).push(ov));
                    }
                },
            }
            i = i + 1;
        }
        proof {
            assert(pv.take(params.len() as int) =~= pv);
        }
        Ok(out)
    }
}


/// An `ordering` parameter orders by a column of the model: whatever it is
/// answered with, the operation orders by the source field of the first
/// filter named by the parameter (with the `-` taken off), ascending, or
/// descending with `-` before the source, and that source is a field of the
/// model. A parameter that names no filter is refused as an unknown ordering.
pub proof fn law_ordering_uses_filter_source(filters: Seq<FilterView>, model: Seq<ModelFieldView>, value: Seq<char>)
    ensures
        ordering_spec(filters, model, value) matches Ok(op) ==> exists|i: int|
            #![trigger filters[i]]
            is_first(filters, named(if value.len() > 0 && value[0] == '-' { value.skip(1) } else { value }), i)
                && lookup_model_field(model, filters[i].source) is Some
                && op == QueryOpView::OrderBy(
                if value.len() > 0 && value[0] == '-' {
                    seq!['-'] + filters[i].source
                } else {
                    filters[i].source
                },
            ),
        (forall|j: int| 0 <= j < filters.len() ==> (#[trigger] filters[j]).name != (if value.len() > 0 && value[0] == '-' { value.skip(1) } else { value }))
            ==> ordering_spec(filters, model, value) == OpResult::Err(
            FilterErrorView::UnknownOrdering(if value.len() > 0 && value[0] == '-' { value.skip(1) } else { value }),
        ),
{
    let desc = value.len() > 0 && value[0] == '-';
    let field = if desc { value.skip(1) } else { value };
    if forall|j: int| 0 <= j < filters.len() ==> (#[trigger] filters[j]).name != field {
        lemma_first_match_none(filters, named(field));
    }
    if ordering_spec(filters, model, value) is Ok {
        lemma_first_match_some(filters, named(field));
        let i = first_match(filters, named(field))->0;
        assert(is_first(filters, named(field), i));
    }
}

/// Ordering by a filter's name gives that filter's source field, ascending;
/// `-` before the name gives `-` before the source. (The filter is the first
/// one with that name, its source is a model field, and its name does not
/// start with `-` itself.)
pub proof fn law_ordering_by_filter_name(filters: Seq<FilterView>, model: Seq<ModelFieldView>, i: int)
    requires
        0 <= i < filters.len(),
        forall|j: int| 0 <= j < i ==> (#[trigger] filters[j]).name != filters[i].name,
        lookup_model_field(model, filters[i].source) is Some,
        !(filters[i].name.len() > 0 && filters[i].name[0] == '-'),
    ensures
        param_spec(filters, model, "ordering"@, filters[i].name) == OpResult::Ok(QueryOpView::OrderBy(filters[i].source)),
        param_spec(filters, model, "ordering"@, seq!['-'] + filters[i].name) == OpResult::Ok(
            QueryOpView::OrderBy(seq!['-'] + filters[i].source),
        ),
{
    let name = filters[i].name;
    assert(is_first(filters, named(name), i));
    lemma_first_match_is(filters, named(name), i);
    let d = seq!['-'] + name;
    assert(d.skip(1) =~= name);
    assert(d[0] == '-');
}

} // verus!
