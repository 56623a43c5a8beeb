//! Invoke requests: which resource call a request asks for, how a remote
//! resource maps it to a REST request, and the registry of resources.
use vstd::prelude::*;

use crate::config::{opt_remote_view, RemoteConfig, RemoteConfigView};
use crate::error::{bad_request_view, not_found_view, ApiError, ApiErrorView};
use crate::filters::{
    apply_spec, filter_message, filters_view, kept_items, local_params, params_view, remote_params_spec, FilterSet,
    FilterView, QueryOp, ops_view,
};
use crate::json::{deep_items, lemma_deep_items, JsonNumber, JsonValue, JsonView, NumberView};
use crate::model::{model_view, ModelFieldView, SqliteValue};
use crate::module::{
    api_fields, api_fields_seq, api_fields_spec, api_filters, api_filters_seq, api_filters_spec,
    ApiField, ApiFieldView, ApiFilter, ApiFilterView,
};
use crate::search::{assoc_get, assoc_insert, first_match, key_is, lemma_first_match_is, lemma_first_match_none};
use crate::serializer::{
    fields_view, normalize_spec, opt_json_view, opt_str_view, pairs_view, serializer_message,
    update_fields_view, validated_values_spec, FieldView, ModelSerializer, PairsResult,
};
use crate::state::{with_auth_token, AppState, AppStateView};
use crate::text::{concat, i64_text, int_text, str_eq, trim_char, trim_end_char, trim_end_matches, trim_matches};

verus! {

/// What an invoke request asks a resource to do.
#[derive(Clone, Copy, PartialEq, Eq, Structural, Debug)]
pub enum ApiAction {
    List,
    Retrieve,
    Create,
    Update,
    Delete,
}

/// The name of an action as `Debug` writes it.
pub open spec fn action_debug(a: ApiAction) -> Seq<char> {
    match a {
        ApiAction::List => "List"@,
        ApiAction::Retrieve => "Retrieve"@,
        ApiAction::Create => "Create"@,
        ApiAction::Update => "Update"@,
        ApiAction::Delete => "Delete"@,
    }
}

impl ApiAction {
    pub fn debug_name(&self) -> (r: &'static str)
        ensures
            r@ == action_debug(*self),
    {
        match self {
            ApiAction::List => "List",
            ApiAction::Retrieve => "Retrieve",
            ApiAction::Create => "Create",
            ApiAction::Update => "Update",
            ApiAction::Delete => "Delete",
        }
    }
}

/// An invoke request: the resource, the action and its arguments.
pub struct ApiRequest {
    pub resource: String,
    pub action: ApiAction,
    pub id: Option<i64>,
    pub params: Vec<(String, String)>,
    pub payload: Option<JsonValue>,
}

pub open spec fn id_missing(action: ApiAction) -> ApiErrorView {
    bad_request_view("id is required for "@ + action_debug(action))
}

pub open spec fn payload_missing(action: ApiAction) -> ApiErrorView {
    bad_request_view("payload is required for "@ + action_debug(action))
}

/// The identifier of a request that needs one.
pub fn required_id(id: Option<i64>, action: ApiAction) -> (r: Result<i64, ApiError>)
    ensures
        match id {
            Some(i) => r matches Ok(x) && x == i,
            None => r matches Err(e) && e@ == id_missing(action),
        },
{
    match id {
        Some(i) => Ok(i),
        None => Err(ApiError::bad_request(concat("id is required for ", action.debug_name()))),
    }
}

/// The payload of a request that needs one.
pub fn required_payload(payload: Option<JsonValue>, action: ApiAction) -> (r: Result<JsonValue, ApiError>)
    ensures
        match payload {
            Some(p) => r matches Ok(x) && x@ == p@,
            None => r matches Err(e) && e@ == payload_missing(action),
        },
{
    match payload {
        Some(p) => Ok(p),
        None => Err(ApiError::bad_request(concat("payload is required for ", action.debug_name()))),
    }
}

/// A resource call with its arguments.
pub enum ResourceCall {
    List(Vec<(String, String)>),
    Retrieve(i64),
    Create(JsonValue),
    Update(i64, JsonValue),
    Delete(i64),
}

pub enum ResourceCallView {
    List(Seq<(Seq<char>, Seq<char>)>),
    Retrieve(i64),
    Create(JsonView),
    Update(i64, JsonView),
    Delete(i64),
}

impl View for ResourceCall {
    type V = ResourceCallView;

    open spec fn view(&self) -> ResourceCallView {
        match self {
            ResourceCall::List(p) => ResourceCallView::List(params_view(p@)),
            ResourceCall::Retrieve(i) => ResourceCallView::Retrieve(*i),
            ResourceCall::Create(p) => ResourceCallView::Create(p@),
            ResourceCall::Update(i, p) => ResourceCallView::Update(*i, p@),
            ResourceCall::Delete(i) => ResourceCallView::Delete(*i),
        }
    }
}

pub type CallResult = Result<ResourceCallView, ApiErrorView>;

/// The call a request asks for: retrieve, update and delete need an
/// identifier, create and update a payload; the identifier is checked first.
pub open spec fn call_spec(
    action: ApiAction,
    id: Option<i64>,
    params: Seq<(Seq<char>, Seq<char>)>,
    payload: Option<JsonView>,
) -> CallResult {
    match action {
        ApiAction::List => Ok(ResourceCallView::List(params)),
        ApiAction::Retrieve => match id {
            Some(i) => Ok(ResourceCallView::Retrieve(i)),
            None => Err(id_missing(action)),
        },
        ApiAction::Create => match payload {
            Some(p) => Ok(ResourceCallView::Create(p)),
            None => Err(payload_missing(action)),
        },
        ApiAction::Update => match id {
            None => Err(id_missing(action)),
            Some(i) => match payload {
                Some(p) => Ok(ResourceCallView::Update(i, p)),
                None => Err(payload_missing(action)),
            },
        },
        ApiAction::Delete => match id {
            Some(i) => Ok(ResourceCallView::Delete(i)),
            None => Err(id_missing(action)),
        },
    }
}

impl ResourceCall {
    /// The call a request asks for.
    pub fn from_request(request: ApiRequest) -> (r: Result<ResourceCall, ApiError>)
        ensures
            match r {
                Ok(c) => call_spec(request.action, request.id, params_view(request.params@), opt_json_view(request.payload)) == CallResult::Ok(c@),
                Err(e) => call_spec(request.action, request.id, params_view(request.params@), opt_json_view(request.payload)) == CallResult::Err(e@),
            },
    {
        let action = request.action;
        match action {
            ApiAction::List => Ok(ResourceCall::List(request.params)),
            ApiAction::Retrieve => match required_id(request.id, action) {
                Ok(i) => Ok(ResourceCall::Retrieve(i)),
                Err(e) => Err(e),
            },
            ApiAction::Create => match required_payload(request.payload, action) {
                Ok(p) => Ok(ResourceCall::Create(p)),
                Err(e) => Err(e),
            },
            ApiAction::Update => {
                let id = match required_id(request.id, action) {
                    Ok(i) => i,
                    Err(e) => {
                        return Err(e);
                    },
                };
                match required_payload(request.payload, action) {
                    Ok(p) => Ok(ResourceCall::Update(id, p)),
                    Err(e) => Err(e),
                }
            },
            ApiAction::Delete => match required_id(request.id, action) {
                Ok(i) => Ok(ResourceCall::Delete(i)),
                Err(e) => Err(e),
            },
        }
    }
}

/// The list answer: `{"count": n, "results": [...]}`.
pub open spec fn paginated_spec(results: Seq<JsonView>) -> JsonView {
    JsonView::Object(
        seq![
            ("count"@, JsonView::Number(NumberView::PosInt(results.len() as u64))),
            ("results"@, JsonView::Array(results)),
        ],
    )
}

/// The list answer for the serialized results.
pub fn paginated(results: Vec<JsonValue>) -> (r: JsonValue)
    requires
        results.len() <= u64::MAX,
    ensures
        r@ == paginated_spec(deep_items(results@)),
{
    proof {
        lemma_deep_items(results@);
    }
    let n = results.len() as u64;
    let mut entries: Vec<(String, JsonValue)> = Vec::new();
    entries.push((String::from_str("count"), JsonValue::Number(JsonNumber::PosInt(n))));
    entries.push((String::from_str("results"), JsonValue::Array(results)));
    proof {
        crate::json::lemma_deep_entries(entries@);
    }
    let r = JsonValue::Object(entries);
    assert(r@ == paginated_spec(deep_items(results@))) by {
        crate::json::lemma_deep_entries(entries@);
        assert(crate::json::deep_entries(entries@) =~= seq![
            ("count"@, JsonView::Number(NumberView::PosInt(n))),
            ("results"@, JsonView::Array(deep_items(results@))),
        ]);
    }
    r
}

/// The delete answer: `{"deleted": true}`.
pub open spec fn deleted_spec() -> JsonView {
    JsonView::Object(seq![("deleted"@, JsonView::Bool(true))])
}

pub fn deleted_response() -> (r: JsonValue)
    ensures
        r@ == deleted_spec(),
{
    let mut entries: Vec<(String, JsonValue)> = Vec::new();
    entries.push((String::from_str("deleted"), JsonValue::Bool(true)));
    let r = JsonValue::Object(entries);
    assert(r@ == deleted_spec()) by {
        crate::json::lemma_deep_entries(entries@);
        assert(crate::json::deep_entries(entries@) =~= seq![("deleted"@, JsonView::Bool(true))]);
    }
    r
}

pub open spec fn remote_missing() -> ApiErrorView {
    bad_request_view("remote resource requires [remote].base_url config"@)
}

/// The collection URL of a remote resource without its trailing slash: the
/// base URL without trailing slashes, `/`, and the path without surrounding slashes.
pub open spec fn remote_url_spec(remote: Option<RemoteConfigView>, path: Seq<char>) -> Result<Seq<char>, ApiErrorView> {
    match remote {
        None => Err(remote_missing()),
        Some(r) => Ok(trim_end_char(r.base_url, '/') + "/"@ + trim_char(path, '/')),
    }
}

/// The URL of a remote resource.
pub fn remote_url(remote: &Option<RemoteConfig>, remote_path: &str) -> (r: Result<String, ApiError>)
    ensures
        match r {
            Ok(u) => remote_url_spec(opt_remote_view(*remote), remote_path@) == Ok::<Seq<char>, ApiErrorView>(u@),
            Err(e) => remote_url_spec(opt_remote_view(*remote), remote_path@) == Err::<Seq<char>, ApiErrorView>(e@),
        },
{
    match remote {
        None => Err(ApiError::bad_request(String::from_str("remote resource requires [remote].base_url config"))),
        Some(r) => {
            let mut u = trim_end_matches(r.base_url.as_str(), '/');
            u.append("/");
            let p = trim_matches(remote_path, '/');
            u.append(p.as_str());
            Ok(u)
        },
    }
}

/// The HTTP method of a remote request.
#[derive(Clone, Copy, PartialEq, Eq, Structural, Debug)]
pub enum HttpMethod {
    Get,
    Post,
    Patch,
    Delete,
}

/// A REST request to a remote API.
pub struct RemoteRequest {
    pub method: HttpMethod,
    pub url: String,
    pub query: Vec<(String, String)>,
    pub body: Option<JsonValue>,
    /// The `Authorization` header, when a token is stored.
    pub authorization: Option<String>,
}

pub struct RemoteRequestView {
    pub method: HttpMethod,
    pub url: Seq<char>,
    pub query: Seq<(Seq<char>, Seq<char>)>,
    pub body: Option<JsonView>,
    pub authorization: Option<Seq<char>>,
}

impl View for RemoteRequest {
    type V = RemoteRequestView;

    open spec fn view(&self) -> RemoteRequestView {
        RemoteRequestView {
            method: self.method,
            url: self.url@,
            query: params_view(self.query@),
            body: opt_json_view(self.body),
            authorization: opt_str_view(self.authorization),
        }
    }
}

/// The `Authorization` header for a stored token: `Token <token>`.
pub open spec fn authorization_spec(token: Option<Seq<char>>) -> Option<Seq<char>> {
    match token {
        Some(t) => Some("Token "@ + t),
        None => None,
    }
}

pub fn authorization_header(token: &Option<String>) -> (r: Option<String>)
    ensures
        opt_str_view(r) == authorization_spec(opt_str_view(*token)),
{
    match token {
        Some(t) => Some(concat("Token ", t.as_str())),
        None => None,
    }
}

/// The collection URL: `<base>/<path>/`.
pub open spec fn collection_url(base: Seq<char>) -> Seq<char> {
    base + "/"@
}

/// The item URL: `<base>/<path>/<id>/`.
pub open spec fn item_url(base: Seq<char>, id: i64) -> Seq<char> {
    base + "/"@ + int_text(id as int) + "/"@
}

/// How a remote resource treats the remote answers.
#[derive(Clone, Copy, PartialEq, Eq, Structural, Debug)]
pub enum RemoteMode {
    /// Answers pass as they are.
    Raw,
    /// Answers are normalized through the serializer.
    Mapped,
    /// Answers are normalized and cached in the local table.
    CachedMapped,
}

pub type RequestResult = Result<RemoteRequestView, ApiErrorView>;

/// The REST request of a call: list and create go to the collection URL,
/// retrieve, update and delete to the item URL; a list forwards its
/// parameters as the filters say; create and update first validate the
/// payload as the serializer would.
pub open spec fn remote_request_spec(
    remote: Option<RemoteConfigView>,
    path: Seq<char>,
    token: Option<Seq<char>>,
    call: ResourceCallView,
    fields: Seq<FieldView>,
    model: Seq<ModelFieldView>,
    filters: Seq<FilterView>,
    remote_ordering: Option<Seq<char>>,
) -> RequestResult {
    let auth = authorization_spec(token);
    let checked: Result<(), ApiErrorView> = match call {
        ResourceCallView::Create(p) => match validated_values_spec(p, fields, model) {
            Err(e) => Err(bad_request_view(serializer_message(e))),
            Ok(_) => Ok(()),
        },
        ResourceCallView::Update(_, p) => match validated_values_spec(p, update_fields_view(fields), model) {
            Err(e) => Err(bad_request_view(serializer_message(e))),
            Ok(_) => Ok(()),
        },
        _ => Ok(()),
    };
    match checked {
        Err(e) => Err(e),
        Ok(_) => match remote_url_spec(remote, path) {
            Err(e) => Err(e),
            Ok(base) => Ok(
                match call {
                    ResourceCallView::List(q) => RemoteRequestView {
                        method: HttpMethod::Get,
                        url: collection_url(base),
                        query: remote_params_spec(filters, remote_ordering, q),
                        body: None,
                        authorization: auth,
                    },
                    ResourceCallView::Retrieve(id) => RemoteRequestView {
                        method: HttpMethod::Get,
                        url: item_url(base, id),
                        query: Seq::empty(),
                        body: None,
                        authorization: auth,
                    },
                    ResourceCallView::Create(p) => RemoteRequestView {
                        method: HttpMethod::Post,
                        url: collection_url(base),
                        query: Seq::empty(),
                        body: Some(p),
                        authorization: auth,
                    },
                    ResourceCallView::Update(id, p) => RemoteRequestView {
                        method: HttpMethod::Patch,
                        url: item_url(base, id),
                        query: Seq::empty(),
                        body: Some(p),
                        authorization: auth,
                    },
                    ResourceCallView::Delete(id) => RemoteRequestView {
                        method: HttpMethod::Delete,
                        url: item_url(base, id),
                        query: Seq::empty(),
                        body: None,
                        authorization: auth,
                    },
                },
            ),
        },
    }
}

/// After a login stores a token, every remote request carries the header
/// `Authorization: Token <token>`; after logout no request carries it. The
/// token decides nothing else: with or without it the same calls succeed,
/// with the same method, URL, query and body, and storing or forgetting it
/// leaves the configuration as it was.
pub proof fn law_token_authorizes_requests(
    s: AppStateView,
    token: Seq<char>,
    path: Seq<char>,
    call: ResourceCallView,
    fields: Seq<FieldView>,
    model: Seq<ModelFieldView>,
    filters: Seq<FilterView>,
    remote_ordering: Option<Seq<char>>,
)
    ensures
        ({
            let after_login = with_auth_token(s, Some(token));
            let after_logout = with_auth_token(after_login, None);
            &&& after_login.config == s.config
            &&& after_logout.config == s.config
            &&& after_logout == with_auth_token(s, None)
            &&& (remote_request_spec(after_login.config.remote, path, after_login.auth_token, call, fields, model, filters, remote_ordering)
                matches Ok(q) ==> q.authorization == Some("Token "@ + token))
            &&& (remote_request_spec(after_logout.config.remote, path, after_logout.auth_token, call, fields, model, filters, remote_ordering)
                matches Ok(q) ==> q.authorization is None)
            &&& match (
                remote_request_spec(after_login.config.remote, path, after_login.auth_token, call, fields, model, filters, remote_ordering),
                remote_request_spec(after_logout.config.remote, path, after_logout.auth_token, call, fields, model, filters, remote_ordering),
            ) {
                (Ok(a), Ok(b)) => a.method == b.method && a.url == b.url && a.query == b.query && a.body == b.body,
                (Err(a), Err(b)) => a == b,
                _ => false,
            }
        }),
{
}

fn make_item_url(base: &String, id: i64) -> (r: String)
    ensures
        r@ == item_url(base@, id),
{
    let mut u = base.clone();
    u.append("/");
    let t = i64_text(id);
    u.append(t.as_str());
    u.append("/");
    u
}

fn make_collection_url(base: &String) -> (r: String)
    ensures
        r@ == collection_url(base@),
{
    concat(base.as_str(), "/")
}

/// The REST request of a call on a remote resource.
pub fn remote_request(
    remote: &Option<RemoteConfig>,
    remote_path: &str,
    token: &Option<String>,
    call: &ResourceCall,
    serializer: &ModelSerializer,
    filterset: &FilterSet,
) -> (r: Result<RemoteRequest, ApiError>)
    ensures
        match r {
            Ok(q) => remote_request_spec(opt_remote_view(*remote), remote_path@, opt_str_view(*token), call@, serializer.fields_spec(), serializer.model_spec(), filterset.filters_spec(), filterset.remote_ordering_spec()) == RequestResult::Ok(q@),
            Err(e) => remote_request_spec(opt_remote_view(*remote), remote_path@, opt_str_view(*token), call@, serializer.fields_spec(), serializer.model_spec(), filterset.filters_spec(), filterset.remote_ordering_spec()) == RequestResult::Err(e@),
        },
{
    match call {
        ResourceCall::Create(p) => match serializer.create_values(p) {
            Err(e) => {
                return Err(ApiError::from_serializer(&e));
            },
            Ok(_) => {},
        },
        ResourceCall::Update(_, p) => match serializer.update_values(p) {
            Err(e) => {
                return Err(ApiError::from_serializer(&e));
            },
            Ok(_) => {},
        },
        _ => {},
    }
    let base = match remote_url(remote, remote_path) {
        Err(e) => {
            return Err(e);
        },
        Ok(b) => b,
    };
    let authorization = authorization_header(token);
    let req = match call {
        ResourceCall::List(q) => RemoteRequest {
            method: HttpMethod::Get,
            url: make_collection_url(&base),
            query: filterset.remote_params(q),
            body: None,
            authorization,
        },
        ResourceCall::Retrieve(id) => RemoteRequest {
            method: HttpMethod::Get,
            url: make_item_url(&base, *id),
            query: Vec::new(),
            body: None,
            authorization,
        },
        ResourceCall::Create(p) => RemoteRequest {
            method: HttpMethod::Post,
            url: make_collection_url(&base),
            query: Vec::new(),
            body: Some(p.copy_value()),
            authorization,
        },
        ResourceCall::Update(id, p) => RemoteRequest {
            method: HttpMethod::Patch,
            url: make_item_url(&base, *id),
            query: Vec::new(),
            body: Some(p.copy_value()),
            authorization,
        },
        ResourceCall::Delete(id) => RemoteRequest {
            method: HttpMethod::Delete,
            url: make_item_url(&base, *id),
            query: Vec::new(),
            body: None,
            authorization,
        },
    };
    assert(params_view(req.query@) =~= match call@ {
        ResourceCallView::List(q) => remote_params_spec(filterset.filters_spec(), filterset.remote_ordering_spec(), q),
        _ => Seq::empty(),
    });
    Ok(req)
}

/// The error of a failed remote request: its status line and the body text.
pub open spec fn remote_failure_spec(status: Seq<char>, body: Option<Seq<char>>) -> ApiErrorView {
    ApiErrorView {
        code: "remote_error"@,
        detail: "remote request failed with "@ + status + ": "@ + match body {
            Some(b) => b,
            None => "failed to read remote error response"@,
        },
    }
}

/// The error answered for a remote request that did not succeed.
pub fn remote_failure(status: &str, body: Option<String>) -> (r: ApiError)
    ensures
        r@ == remote_failure_spec(status@, opt_str_view(body)),
{
    let mut d = concat("remote request failed with ", status);
    d.append(": ");
    match body {
        Some(b) => d.append(b.as_str()),
        None => d.append("failed to read remote error response"),
    }
    ApiError::new("remote_error", d)
}

/// The error of a remote request that could not be made or read.
pub fn remote_transport_error(message: String) -> (r: ApiError)
    ensures
        r@ == (ApiErrorView { code: "remote_error"@, detail: message@ }),
{
    ApiError::new("remote_error", message)
}

pub open spec fn normalize_items(items: Seq<JsonView>, fields: Seq<FieldView>, model: Seq<ModelFieldView>) -> Seq<JsonView> {
    items.map_values(|x: JsonView| normalize_spec(x, fields, model))
}

/// The items of a mapped list answer: normalized, then those that meet the
/// local-only filters the parameters ask for.
pub open spec fn mapped_items(
    items: Seq<JsonView>,
    fields: Seq<FieldView>,
    model: Seq<ModelFieldView>,
    filters: Seq<FilterView>,
    params: Seq<(Seq<char>, Seq<char>)>,
) -> Seq<JsonView> {
    kept_items(filters, params, normalize_items(items, fields, model))
}

/// What a remote resource answers for a remote answer: a raw resource passes
/// it on; a mapped resource normalizes a single object, and the items of a
/// list answer that is an array, or the items of the `results` of a list
/// answer that is an object, keeping the items that meet the local-only
/// filters.
pub open spec fn remote_answer_spec(
    mode: RemoteMode,
    call: ResourceCallView,
    value: JsonView,
    fields: Seq<FieldView>,
    model: Seq<ModelFieldView>,
    filters: Seq<FilterView>,
) -> JsonView {
    if mode == RemoteMode::Raw {
        value
    } else {
        match call {
            ResourceCallView::Delete(_) => value,
            ResourceCallView::List(q) => match value {
                JsonView::Array(items) => JsonView::Array(mapped_items(items, fields, model, filters, q)),
                JsonView::Object(e) => match crate::json::entries_get(e, "results"@) {
                    Some(JsonView::Array(items)) => JsonView::Object(
                        crate::json::entries_insert(e, "results"@, JsonView::Array(mapped_items(items, fields, model, filters, q))),
                    ),
                    _ => value,
                },
                _ => value,
            },
            _ => normalize_spec(value, fields, model),
        }
    }
}

fn normalize_all(items: &Vec<JsonValue>, serializer: &ModelSerializer) -> (r: Vec<JsonValue>)
    ensures
        deep_items(r@) == normalize_items(deep_items(items@), serializer.fields_spec(), serializer.model_spec()),
{
    let mut out: Vec<JsonValue> = Vec::new();
    let mut i: usize = 0;
    proof {
        lemma_deep_items(items@);
    }
    while i < items.len()
        invariant
            i <= items.len(),
            deep_items(items@).len() == items@.len(),
            forall|j: int| 0 <= j < items@.len() ==> #[trigger] deep_items(items@)[j] == items@[j].deep(),
            deep_items(out@) == normalize_items(deep_items(items@), serializer.fields_spec(), serializer.model_spec()).take(i as int),
        decreases items.len() - i,
    {
        let x = serializer.normalize_remote_value(items[i].copy_value());
        proof {
            crate::json::lemma_deep_items_push(out@, x);
            assert(deep_items(items@)[i as int] == items@[i as int].deep());
        }
        out.push(x);
        i = i + 1;
        proof {
            assert(deep_items(out@) =~= normalize_items(deep_items(items@), serializer.fields_spec(), serializer.model_spec()).take(i as int));
        }
    }
    assert(normalize_items(deep_items(items@), serializer.fields_spec(), serializer.model_spec()).take(items.len() as int)
        =~= normalize_items(deep_items(items@), serializer.fields_spec(), serializer.model_spec()));
    out
}

/// What a remote resource answers for a remote answer.
pub fn remote_answer(
    mode: RemoteMode,
    call: &ResourceCall,
    value: JsonValue,
    serializer: &ModelSerializer,
    filterset: &FilterSet,
) -> (r: JsonValue)
    ensures
        r@ == remote_answer_spec(mode, call@, value@, serializer.fields_spec(), serializer.model_spec(), filterset.filters_spec()),
{
    if mode == RemoteMode::Raw {
        return value;
    }
    match call {
        ResourceCall::Delete(_) => value,
        ResourceCall::List(q) => match value {
            JsonValue::Array(items) => JsonValue::Array(filterset.keep_after_remote(q, normalize_all(&items, serializer))),
            JsonValue::Object(e) => {
                let results = match crate::json::object_get(&e, "results") {
                    Some(JsonValue::Array(items)) => Some(filterset.keep_after_remote(q, normalize_all(items, serializer))),
                    _ => None,
                };
                match results {
                    Some(items) => {
                        let mut e2 = e;
                        crate::json::object_insert(&mut e2, String::from_str("results"), JsonValue::Array(items));
                        JsonValue::Object(e2)
                    },
                    None => JsonValue::Object(e),
                }
            },
            other => other,
        },
        _ => serializer.normalize_remote_value(value),
    }
}

/// The model of a registered resource.
pub enum InvokeView {
    Local {
        resource: Seq<char>,
        fields: Seq<FieldView>,
        model: Seq<ModelFieldView>,
        filters: Seq<FilterView>,
        filter_model: Seq<ModelFieldView>,
    },
    Remote {
        resource: Seq<char>,
        remote_path: Seq<char>,
        mode: RemoteMode,
        fields: Seq<FieldView>,
        model: Seq<ModelFieldView>,
        filters: Seq<FilterView>,
        remote_ordering: Option<Seq<char>>,
    },
}

/// A resource stored in the local SQLite database.
pub struct ModelInvokeSet {
    resource: String,
    serializer: ModelSerializer,
    filterset: FilterSet,
}

impl View for ModelInvokeSet {
    type V = InvokeView;

    closed spec fn view(&self) -> InvokeView {
        InvokeView::Local {
            resource: self.resource@,
            fields: self.serializer.fields_spec(),
            model: self.serializer.model_spec(),
            filters: self.filterset.filters_spec(),
            filter_model: self.filterset.model_spec(),
        }
    }
}

impl ModelInvokeSet {
    pub fn new(resource: &str, serializer: ModelSerializer, filterset: FilterSet) -> (r: ModelInvokeSet)
        ensures
            r@ == (InvokeView::Local {
                resource: resource@,
                fields: serializer.fields_spec(),
                model: serializer.model_spec(),
                filters: filterset.filters_spec(),
                filter_model: filterset.model_spec(),
            }),
    {
        ModelInvokeSet { resource: String::from_str(resource), serializer, filterset }
    }

    pub fn resource(&self) -> (r: String)
        ensures
            r@ == self@->Local_resource,
    {
        self.resource.clone()
    }

    pub fn serializer(&self) -> (r: &ModelSerializer)
        ensures
            r.fields_spec() == self@->Local_fields,
            r.model_spec() == self@->Local_model,
    {
        &self.serializer
    }

    pub fn filterset(&self) -> (r: &FilterSet)
        ensures
            r.filters_spec() == self@->Local_filters,
            r.model_spec() == self@->Local_filter_model,
    {
        &self.filterset
    }

    /// The query operations of a list call.
    pub fn list_query(&self, params: &Vec<(String, String)>) -> (r: Result<Vec<QueryOp>, ApiError>)
        ensures
            match apply_spec(self@->Local_filters, self@->Local_filter_model, local_params(self@->Local_filters, params_view(params@))) {
                Ok(ops) => r matches Ok(v) && ops_view(v@) == ops,
                Err(e) => r matches Err(a) && a@ == bad_request_view(filter_message(e)),
            },
    {
        self.filterset.apply(params)
    }

    /// The column values of a create call.
    pub fn create_values(&self, payload: &JsonValue) -> (r: Result<Vec<(String, SqliteValue)>, ApiError>)
        ensures
            match validated_values_spec(payload@, self@->Local_fields, self@->Local_model) {
                Ok(p) => r matches Ok(v) && pairs_view(v@) == p,
                Err(e) => r matches Err(a) && a@ == bad_request_view(serializer_message(e)),
            },
    {
        match self.serializer.create_values(payload) {
            Ok(v) => Ok(v),
            Err(e) => Err(ApiError::from_serializer(&e)),
        }
    }

    /// The column values of an update call.
    pub fn update_values(&self, payload: &JsonValue) -> (r: Result<Vec<(String, SqliteValue)>, ApiError>)
        ensures
            match validated_values_spec(payload@, update_fields_view(self@->Local_fields), self@->Local_model) {
                Ok(p) => r matches Ok(v) && pairs_view(v@) == p,
                Err(e) => r matches Err(a) && a@ == bad_request_view(serializer_message(e)),
            },
    {
        match self.serializer.update_values(payload) {
            Ok(v) => Ok(v),
            Err(e) => Err(ApiError::from_serializer(&e)),
        }
    }
}

/// A resource served by a remote REST API.
pub struct RemoteInvokeSet {
    resource: String,
    remote_path: String,
    serializer: ModelSerializer,
    filterset: FilterSet,
    mode: RemoteMode,
}

impl View for RemoteInvokeSet {
    type V = InvokeView;

    closed spec fn view(&self) -> InvokeView {
        InvokeView::Remote {
            resource: self.resource@,
            remote_path: self.remote_path@,
            mode: self.mode,
            fields: self.serializer.fields_spec(),
            model: self.serializer.model_spec(),
            filters: self.filterset.filters_spec(),
            remote_ordering: self.filterset.remote_ordering_spec(),
        }
    }
}

impl RemoteInvokeSet {
    /// A raw remote resource without filters: every list parameter is forwarded.
    pub fn new(resource: &str, remote_path: &str, serializer: ModelSerializer) -> (r: RemoteInvokeSet)
        ensures
            r@ == (InvokeView::Remote {
                resource: resource@,
                remote_path: remote_path@,
                mode: RemoteMode::Raw,
                fields: serializer.fields_spec(),
                model: serializer.model_spec(),
                filters: Seq::empty(),
                remote_ordering: None,
            }),
    {
        let filterset = FilterSet::new(Vec::new(), Vec::new());
        let r = RemoteInvokeSet::with_mode(resource, remote_path, serializer, filterset, RemoteMode::Raw);
        assert(r@->Remote_filters =~= Seq::<FilterView>::empty());
        r
    }

    /// A remote resource with its filters, in the given mode.
    pub fn with_mode(
        resource: &str,
        remote_path: &str,
        serializer: ModelSerializer,
        filterset: FilterSet,
        mode: RemoteMode,
    ) -> (r: RemoteInvokeSet)
        ensures
            r@ == (InvokeView::Remote {
                resource: resource@,
                remote_path: remote_path@,
                mode,
                fields: serializer.fields_spec(),
                model: serializer.model_spec(),
                filters: filterset.filters_spec(),
                remote_ordering: filterset.remote_ordering_spec(),
            }),
    {
        RemoteInvokeSet {
            resource: String::from_str(resource),
            remote_path: String::from_str(remote_path),
            serializer,
            filterset,
            mode,
        }
    }

    pub fn resource(&self) -> (r: String)
        ensures
            r@ == self@->Remote_resource,
    {
        self.resource.clone()
    }

    pub fn mode(&self) -> (r: RemoteMode)
        ensures
            r == self@->Remote_mode,
    {
        self.mode
    }

    pub fn serializer(&self) -> (r: &ModelSerializer)
        ensures
            r.fields_spec() == self@->Remote_fields,
            r.model_spec() == self@->Remote_model,
    {
        &self.serializer
    }

    /// The REST request of a call.
    pub fn request(&self, remote: &Option<RemoteConfig>, token: &Option<String>, call: &ResourceCall) -> (r: Result<RemoteRequest, ApiError>)
        ensures
            match r {
                Ok(q) => remote_request_spec(opt_remote_view(*remote), self@->Remote_remote_path, opt_str_view(*token), call@, self@->Remote_fields, self@->Remote_model, self@->Remote_filters, self@->Remote_remote_ordering) == RequestResult::Ok(q@),
                Err(e) => remote_request_spec(opt_remote_view(*remote), self@->Remote_remote_path, opt_str_view(*token), call@, self@->Remote_fields, self@->Remote_model, self@->Remote_filters, self@->Remote_remote_ordering) == RequestResult::Err(e@),
            },
    {
        remote_request(remote, self.remote_path.as_str(), token, call, &self.serializer, &self.filterset)
    }

    /// What the resource answers for a successful remote answer.
    pub fn answer(&self, call: &ResourceCall, value: JsonValue) -> (r: JsonValue)
        ensures
            r@ == remote_answer_spec(self@->Remote_mode, call@, value@, self@->Remote_fields, self@->Remote_model, self@->Remote_filters),
    {
        remote_answer(self.mode, call, value, &self.serializer, &self.filterset)
    }
}

/// A local or remote resource.
pub enum InvokeSet {
    Model(ModelInvokeSet),
    Remote(RemoteInvokeSet),
}

impl View for InvokeSet {
    type V = InvokeView;

    open spec fn view(&self) -> InvokeView {
        match self {
            InvokeSet::Model(m) => m@,
            InvokeSet::Remote(r) => r@,
        }
    }
}

/// A resource that invoke requests reach by name.
pub struct RegisteredResource {
    pub inner: InvokeSet,
}

impl View for RegisteredResource {
    type V = InvokeView;

    open spec fn view(&self) -> InvokeView {
        self.inner@
    }
}

pub open spec fn invoke_resource_name(v: InvokeView) -> Seq<char> {
    match v {
        InvokeView::Local { resource, .. } => resource,
        InvokeView::Remote { resource, .. } => resource,
    }
}

impl RegisteredResource {
    pub fn new(inner: InvokeSet) -> (r: RegisteredResource)
        ensures
            r@ == inner@,
    {
        RegisteredResource { inner }
    }

    /// The resource name.
    pub fn resource(&self) -> (r: String)
        ensures
            r@ == invoke_resource_name(self@),
    {
        match &self.inner {
            InvokeSet::Model(m) => m.resource(),
            InvokeSet::Remote(r) => r.resource(),
        }
    }
}

/// A resource with the metadata of its generated client.
pub struct ResourceRegistration {
    pub resource: String,
    pub fields: Vec<ApiField>,
    pub filters: Vec<ApiFilter>,
    pub invoke_resource: RegisteredResource,
}

pub struct RegistrationView {
    pub resource: Seq<char>,
    pub fields: Seq<ApiFieldView>,
    pub filters: Seq<ApiFilterView>,
    pub invoke: InvokeView,
}

impl View for ResourceRegistration {
    type V = RegistrationView;

    open spec fn view(&self) -> RegistrationView {
        RegistrationView {
            resource: self.resource@,
            fields: api_fields_seq(self.fields@),
            filters: api_filters_seq(self.filters@),
            invoke: self.invoke_resource@,
        }
    }
}

pub open spec fn registrations_view(s: Seq<ResourceRegistration>) -> Seq<RegistrationView> {
    s.map_values(|r: ResourceRegistration| r@)
}

impl ResourceRegistration {
    /// A local resource.
    pub fn from_model(resource: &str, serializer: ModelSerializer, filterset: FilterSet) -> (r: ResourceRegistration)
        ensures
            r@ == (RegistrationView {
                resource: resource@,
                fields: api_fields_spec(serializer.fields_spec(), serializer.model_spec()),
                filters: api_filters_spec(filterset.filters_spec(), filterset.model_spec()),
                invoke: InvokeView::Local {
                    resource: resource@,
                    fields: serializer.fields_spec(),
                    model: serializer.model_spec(),
                    filters: filterset.filters_spec(),
                    filter_model: filterset.model_spec(),
                },
            }),
    {
        let fields = api_fields(&serializer.fields, &serializer.model);
        let filters = api_filters(&filterset.filters, &filterset.model);
        ResourceRegistration {
            resource: String::from_str(resource),
            fields,
            filters,
            invoke_resource: RegisteredResource::new(InvokeSet::Model(ModelInvokeSet::new(resource, serializer, filterset))),
        }
    }

    /// A remote resource in the given mode.
    pub fn from_remote_mode(
        resource: &str,
        remote_path: &str,
        serializer: ModelSerializer,
        filterset: FilterSet,
        mode: RemoteMode,
    ) -> (r: ResourceRegistration)
        ensures
            r@ == (RegistrationView {
                resource: resource@,
                fields: api_fields_spec(serializer.fields_spec(), serializer.model_spec()),
                filters: api_filters_spec(filterset.filters_spec(), filterset.model_spec()),
                invoke: InvokeView::Remote {
                    resource: resource@,
                    remote_path: remote_path@,
                    mode,
                    fields: serializer.fields_spec(),
                    model: serializer.model_spec(),
                    filters: filterset.filters_spec(),
                    remote_ordering: filterset.remote_ordering_spec(),
                },
            }),
    {
        let fields = api_fields(&serializer.fields, &serializer.model);
        let filters = api_filters(&filterset.filters, &filterset.model);
        ResourceRegistration {
            resource: String::from_str(resource),
            fields,
            filters,
            invoke_resource: RegisteredResource::new(
                InvokeSet::Remote(RemoteInvokeSet::with_mode(resource, remote_path, serializer, filterset, mode)),
            ),
        }
    }

    /// A raw remote resource.
    pub fn from_remote_model(resource: &str, remote_path: &str, serializer: ModelSerializer, filterset: FilterSet) -> (r: ResourceRegistration)
        ensures
            r@ == (RegistrationView {
                resource: resource@,
                fields: api_fields_spec(serializer.fields_spec(), serializer.model_spec()),
                filters: api_filters_spec(filterset.filters_spec(), filterset.model_spec()),
                invoke: InvokeView::Remote {
                    resource: resource@,
                    remote_path: remote_path@,
                    mode: RemoteMode::Raw,
                    fields: serializer.fields_spec(),
                    model: serializer.model_spec(),
                    filters: filterset.filters_spec(),
                    remote_ordering: filterset.remote_ordering_spec(),
                },
            }),
    {
        ResourceRegistration::from_remote_mode(resource, remote_path, serializer, filterset, RemoteMode::Raw)
    }
}

/// The registry after registering the resources in order: a later
/// registration of a name replaces an earlier one.
pub open spec fn install_fold(reg: Seq<(Seq<char>, InvokeView)>, regs: Seq<RegistrationView>) -> Seq<(Seq<char>, InvokeView)>
    decreases regs.len(),
{
    if regs.len() == 0 {
        reg
    } else {
        assoc_insert(install_fold(reg, regs.drop_last()), regs.last().resource, regs.last().invoke)
    }
}

/// The Tauri invoke API: the application state, the registered resources by
/// name, and the create-table statements of the local resources.
pub struct TauriApi {
    state: AppState,
    resources: Vec<(String, RegisteredResource)>,
    sql: Vec<String>,
}

pub struct TauriApiView {
    pub state: AppStateView,
    pub resources: Seq<(Seq<char>, InvokeView)>,
    pub sql: Seq<Seq<char>>,
}

pub open spec fn registry_view(s: Seq<(String, RegisteredResource)>) -> Seq<(Seq<char>, InvokeView)> {
    s.map_values(|e: (String, RegisteredResource)| (e.0@, e.1@))
}

impl View for TauriApi {
    type V = TauriApiView;

    closed spec fn view(&self) -> TauriApiView {
        TauriApiView {
            state: self.state@,
            resources: registry_view(self.resources@),
            sql: crate::text::strings_view(self.sql@),
        }
    }
}

pub open spec fn unknown_resource(name: Seq<char>) -> ApiErrorView {
    not_found_view("unknown resource: "@ + name)
}

fn registry_insert(reg: &mut Vec<(String, RegisteredResource)>, name: String, res: RegisteredResource)
    ensures
        registry_view(final(reg)@) == assoc_insert(registry_view(old(reg)@), name@, res@),
{
    let ghost rv = registry_view(reg@);
    let mut i: usize = 0;
    while i < reg.len()
        invariant
            i <= reg.len(),
            reg@ == old(reg)@,
            rv == registry_view(reg@),
            forall|j: int| 0 <= j < i ==> !key_is::<InvokeView>(name@)(#[trigger] rv[j]),
        decreases reg.len() - i,
    {
        if str_eq(reg[i].0.as_str(), name.as_str()) {
            proof {
                lemma_first_match_is(rv, key_is::<InvokeView>(name@), i as int);
            }
            let ghost nv = name@;
            let ghost resv = res@;
            reg.set(i, (name, res));
            proof {
                assert(registry_view(reg@) =~= rv.update(i as int, (nv, resv)));
            }
            return;
        }
        i = i + 1;
    }
    proof {
        lemma_first_match_none(rv, key_is::<InvokeView>(name@));
    }
    let ghost nv = name@;
    let ghost resv = res@;
    reg.push((name, res));
    proof {
        assert(registry_view(reg@) =~= rv.push((nv, resv)));
    }
}

impl TauriApi {
    /// An API with no resources.
    pub fn new(state: AppState) -> (r: TauriApi)
        ensures
            r@ == (TauriApiView { state: state@, resources: Seq::empty(), sql: Seq::empty() }),
    {
        let r = TauriApi { state, resources: Vec::new(), sql: Vec::new() };
        assert(registry_view(r.resources@) =~= Seq::<(Seq<char>, InvokeView)>::empty());
        assert(crate::text::strings_view(r.sql@) =~= Seq::<Seq<char>>::empty());
        r
    }

    /// Adds the create-table statements and the resources that the modules
    /// registered in a context.
    pub fn install(self, ctx: crate::module::ModuleContext) -> (r: TauriApi)
        ensures
            r@.state == self@.state,
            r@.sql == self@.sql + ctx.sql_spec(),
            r@.resources == install_fold(self@.resources, registrations_view(ctx.resources_spec())),
    {
        let ghost ctx_sql = ctx.sql_spec();
        let ghost ctx_regs = ctx.resources_spec();
        let (sql, resources) = ctx.into_parts();
        let ghost self_view = self@;
        let mut api = self;
        let ghost old_sql = crate::text::strings_view(api.sql@);
        let ghost old_reg = registry_view(api.resources@);
        let mut i: usize = 0;
        while i < sql.len()
            invariant
                i <= sql.len(),
                crate::text::strings_view(sql@) == ctx_sql,
                crate::text::strings_view(api.sql@) == old_sql + ctx_sql.take(i as int),
                api.state@ == self_view.state,
                registry_view(api.resources@) == old_reg,
            decreases sql.len() - i,
        {
            let ghost before = api.sql@;
            let c = sql[i].clone();
            api.sql.push(c);
            proof {
                assert(crate::text::strings_view(api.sql@) =~= crate::text::strings_view(before).push(c@));
                assert(ctx_sql[i as int] == c@);
                assert(ctx_sql.take(i + 1) =~= ctx_sql.take(i as int).push(c@));
                assert(crate::text::strings_view(api.sql@) =~= old_sql + ctx_sql.take(i + 1));
            }
            i = i + 1;
        }
        proof {
            assert(ctx_sql.take(sql.len() as int) =~= ctx_sql);
        }
        let ghost rv = registrations_view(ctx_regs);
        let mut remaining = resources;
        let ghost n = rv.len();
        let mut k: usize = 0;
        proof {
            assert(remaining@ == ctx_regs);
        }
        let count = remaining.len();
        proof {
            assert(rv.len() == remaining@.len());
            assert(registrations_view(remaining@).len() == remaining@.len());
            assert(rv.skip(0) =~= rv);
            assert(rv.take(0) =~= Seq::<RegistrationView>::empty());
        }
        while remaining.len() > 0
            invariant
                k <= n,
                n == rv.len(),
                n <= usize::MAX,
                registrations_view(remaining@) == rv.skip(k as int),
                crate::text::strings_view(api.sql@) == old_sql + ctx_sql,
                api.state@ == self_view.state,
                registry_view(api.resources@) == install_fold(old_reg, rv.take(k as int)),
            decreases remaining.len(),
        {
            let ghost before = remaining@;
            proof {
                assert(registrations_view(before).len() == before.len());
                assert(rv.skip(k as int).len() == n - k);
                assert(k < n);
            }
            let item = remaining.remove(0);
            proof {
                assert(registrations_view(before)[0] == item@);
                assert(rv.skip(k as int)[0] == rv[k as int]);
                assert(rv.take(k + 1).drop_last() =~= rv.take(k as int));
                assert(rv.take(k + 1).last() == rv[k as int]);
                assert(remaining@ == before.remove(0));
                assert forall|j: int| 0 <= j < remaining@.len() implies #[trigger] registrations_view(remaining@)[j] == rv.skip(k + 1)[j] by {
                    assert(remaining@[j] == before[j + 1]);
                    assert(registrations_view(before)[j + 1] == rv.skip(k as int)[j + 1]);
                }
                assert(registrations_view(remaining@) =~= rv.skip(k + 1));
            }
            registry_insert(&mut api.resources, item.resource, item.invoke_resource);
            k = k + 1;
        }
        proof {
            assert(rv.take(n as int) =~= rv);
        }
        api
    }

    /// The resource registered under a name.
    pub fn resource(&self, name: &str) -> (r: Result<&RegisteredResource, ApiError>)
        ensures
            match assoc_get(self@.resources, name@) {
                Some(v) => r matches Ok(x) && x@ == v,
                None => r matches Err(e) && e@ == unknown_resource(name@),
            },
    {
        let ghost rv = registry_view(self.resources@);
        let mut i: usize = 0;
        while i < self.resources.len()
            invariant
                i <= self.resources.len(),
                rv == registry_view(self.resources@),
                forall|j: int| 0 <= j < i ==> !key_is::<InvokeView>(name@)(#[trigger] rv[j]),
            decreases self.resources.len() - i,
        {
            if str_eq(self.resources[i].0.as_str(), name) {
                proof {
                    lemma_first_match_is(rv, key_is::<InvokeView>(name@), i as int);
                }
                return Ok(&self.resources[i].1);
            }
            i = i + 1;
        }
        proof {
            lemma_first_match_none(rv, key_is::<InvokeView>(name@));
        }
        Err(ApiError::not_found(concat("unknown resource: ", name)))
    }

    /// The resource and the call that a request asks for; an unknown resource
    /// is reported before a missing argument.
    pub fn plan(&self, request: ApiRequest) -> (r: Result<(&RegisteredResource, ResourceCall), ApiError>)
        ensures
            match assoc_get(self@.resources, request.resource@) {
                None => r matches Err(e) && e@ == unknown_resource(request.resource@),
                Some(v) => match call_spec(request.action, request.id, params_view(request.params@), opt_json_view(request.payload)) {
                    Ok(c) => r matches Ok(p) && p.0@ == v && p.1@ == c,
                    Err(e) => r matches Err(a) && a@ == e,
                },
            },
    {
        let res = match self.resource(request.resource.as_str()) {
            Err(e) => {
                return Err(e);
            },
            Ok(x) => x,
        };
        match ResourceCall::from_request(request) {
            Ok(c) => Ok((res, c)),
            Err(e) => Err(e),
        }
    }

    pub fn state(&self) -> (r: &AppState)
        ensures
            r@ == self@.state,
    {
        &self.state
    }

    /// The create-table statements of the local resources.
    pub fn sql(&self) -> (r: &Vec<String>)
        ensures
            crate::text::strings_view(r@) == self@.sql,
    {
        &self.sql
    }

    /// Stores the token sent with remote requests.
    pub fn set_auth_token(&mut self, token: String)
        ensures
            final(self)@ == (TauriApiView { state: with_auth_token(old(self)@.state, Some(token@)), ..old(self)@ }),
    {
        self.state.set_auth_token(token);
    }

    /// Forgets the stored token.
    pub fn logout(&mut self)
        ensures
            final(self)@ == (TauriApiView { state: with_auth_token(old(self)@.state, None), ..old(self)@ }),
    {
        self.state.clear_auth_token();
    }

    pub fn is_authenticated(&self) -> (r: bool)
        ensures
            r == (self@.state.auth_token is Some),
    {
        self.state.is_authenticated()
    }

    /// The REST request of a call on a remote resource, with the configured
    /// remote API and the stored token.
    pub fn remote_request(&self, resource: &RemoteInvokeSet, call: &ResourceCall) -> (r: Result<RemoteRequest, ApiError>)
        ensures
            match r {
                Ok(q) => remote_request_spec(self@.state.config.remote, resource@->Remote_remote_path, self@.state.auth_token, call@, resource@->Remote_fields, resource@->Remote_model, resource@->Remote_filters, resource@->Remote_remote_ordering) == RequestResult::Ok(q@),
                Err(e) => remote_request_spec(self@.state.config.remote, resource@->Remote_remote_path, self@.state.auth_token, call@, resource@->Remote_fields, resource@->Remote_model, resource@->Remote_filters, resource@->Remote_remote_ordering) == RequestResult::Err(e@),
            },
    {
        let token = self.state.auth_token();
        resource.request(self.state.remote_config_ref(), &token, call)
    }

    /// The token login request: `POST` of the username and password to the
    /// configured auth path.
    pub fn login_request(&self, username: &str, password: &str) -> (r: Result<RemoteRequest, ApiError>)
        ensures
            match login_request_spec(self@.state.config.remote, username@, password@) {
                Ok(q) => r matches Ok(x) && x@ == q,
                Err(e) => r matches Err(x) && x@ == e,
            },
    {
        login_request(self.state.remote_config_ref(), username, password)
    }
}

pub open spec fn login_path_missing() -> ApiErrorView {
    bad_request_view("remote login requires [remote].auth_path config"@)
}

/// The login body: `{"password": ..., "username": ...}`, its keys in order.
pub open spec fn login_body(username: Seq<char>, password: Seq<char>) -> JsonView {
    JsonView::Object(seq![("password"@, JsonView::Str(password)), ("username"@, JsonView::Str(username))])
}

/// The token login request for the remote configuration.
pub open spec fn login_request_spec(remote: Option<RemoteConfigView>, username: Seq<char>, password: Seq<char>) -> RequestResult {
    match remote {
        None => Err(remote_missing()),
        Some(r) => match r.auth_path {
            None => Err(login_path_missing()),
            Some(path) => Ok(
                RemoteRequestView {
                    method: HttpMethod::Post,
                    url: collection_url(trim_end_char(r.base_url, '/') + "/"@ + trim_char(path, '/')),
                    query: Seq::empty(),
                    body: Some(login_body(username, password)),
                    authorization: None,
                },
            ),
        },
    }
}

/// The token login request.
pub fn login_request(remote: &Option<RemoteConfig>, username: &str, password: &str) -> (r: Result<RemoteRequest, ApiError>)
    ensures
        match login_request_spec(opt_remote_view(*remote), username@, password@) {
            Ok(q) => r matches Ok(x) && x@ == q,
            Err(e) => r matches Err(x) && x@ == e,
        },
{
    let path = match remote {
        None => {
            return Err(ApiError::bad_request(String::from_str("remote resource requires [remote].base_url config")));
        },
        Some(rc) => match &rc.auth_path {
            None => {
                return Err(ApiError::bad_request(String::from_str("remote login requires [remote].auth_path config")));
            },
            Some(p) => p,
        },
    };
    let base = match remote_url(remote, path.as_str()) {
        Ok(b) => b,
        Err(e) => {
            return Err(e);
        },
    };
    let mut entries: Vec<(String, JsonValue)> = Vec::new();
    entries.push((String::from_str("password"), JsonValue::String(String::from_str(password))));
    entries.push((String::from_str("username"), JsonValue::String(String::from_str(username))));
    let body = JsonValue::Object(entries);
    assert(body@ == login_body(username@, password@)) by {
        crate::json::lemma_deep_entries(entries@);
        assert(crate::json::deep_entries(entries@) =~= seq![("password"@, JsonView::Str(password@)), ("username"@, JsonView::Str(username@))]);
    }
    let r = RemoteRequest {
        method: HttpMethod::Post,
        url: make_collection_url(&base),
        query: Vec::new(),
        body: Some(body),
        authorization: None,
    };
    assert(params_view(r.query@) =~= Seq::<(Seq<char>, Seq<char>)>::empty());
    Ok(r)
}

/// The answer of a token login.
pub struct AuthTokenResponse {
    pub token: String,
}

pub open spec fn missing_token() -> ApiErrorView {
    ApiErrorView { code: "remote_error"@, detail: "remote login response has no token"@ }
}

impl AuthTokenResponse {
    /// The token of a login answer: its `token` text.
    pub fn from_answer(value: &JsonValue) -> (r: Result<AuthTokenResponse, ApiError>)
        ensures
            match value@ {
                JsonView::Object(e) => match crate::serializer::str_at(e, "token"@) {
                    Some(t) => r matches Ok(x) && x.token@ == t,
                    None => r matches Err(x) && x@ == missing_token(),
                },
                _ => r matches Err(x) && x@ == missing_token(),
            },
    {
        let token = match value.as_object() {
            Some(o) => match crate::json::object_get(o, "token") {
                Some(v) => match v.as_str() {
                    Some(t) => Some(t.clone()),
                    None => None,
                },
                None => None,
            },
            None => None,
        };
        match token {
            Some(t) => Ok(AuthTokenResponse { token: t }),
            None => Err(ApiError::new("remote_error", String::from_str("remote login response has no token"))),
        }
    }
}

/// Registering resources in order leaves each name with its last registration,
/// and every other name as it was.
pub proof fn law_install_last_registration_wins(reg: Seq<(Seq<char>, InvokeView)>, regs: Seq<RegistrationView>, name: Seq<char>)
    ensures
        assoc_get(install_fold(reg, regs), name) == match last_registration(regs, name) {
            Some(k) => Some(regs[k].invoke),
            None => assoc_get(reg, name),
        },
    decreases regs.len(),
{
    if regs.len() > 0 {
        let d = regs.drop_last();
        law_install_last_registration_wins(reg, d, name);
        crate::search::lemma_assoc_insert(install_fold(reg, d), regs.last().resource, regs.last().invoke, name);
        if regs.last().resource != name {
            lemma_last_registration_drop(regs, name);
        }
    }
}

/// The position of the last registration of a name.
pub open spec fn last_registration(regs: Seq<RegistrationView>, name: Seq<char>) -> Option<int>
    decreases regs.len(),
{
    if regs.len() == 0 {
        None
    } else if regs.last().resource == name {
        Some(regs.len() - 1)
    } else {
        last_registration(regs.drop_last(), name)
    }
}

proof fn lemma_last_registration_range(regs: Seq<RegistrationView>, name: Seq<char>)
    ensures
        last_registration(regs, name) matches Some(k) ==> 0 <= k < regs.len() && regs[k].resource == name,
    decreases regs.len(),
{
    if regs.len() > 0 && regs.last().resource != name {
        lemma_last_registration_range(regs.drop_last(), name);
    }
}

proof fn lemma_last_registration_drop(regs: Seq<RegistrationView>, name: Seq<char>)
    requires
        regs.len() > 0,
        regs.last().resource != name,
    ensures
        match last_registration(regs.drop_last(), name) {
            Some(k) => last_registration(regs, name) == Some(k) && 0 <= k < regs.len() - 1 && regs[k] == regs.drop_last()[k],
            None => last_registration(regs, name) is None,
        },
{
    lemma_last_registration_range(regs.drop_last(), name);
}

} // verus!
