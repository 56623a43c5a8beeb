use che_tauri::api::{
    authorization_header, deleted_response, login_request, paginated, remote_answer, remote_failure, remote_request,
    remote_transport_error, remote_url, required_id, required_payload, ApiAction, ApiRequest, AuthTokenResponse,
    HttpMethod, InvokeSet, ModelInvokeSet, RemoteInvokeSet, RemoteMode, RemoteRequest, ResourceCall,
    ResourceRegistration, TauriApi,
};
use che_tauri::config::{AppConfig, DatabaseConfig, RemoteConfig};
use che_tauri::filters::{Filter, FilterSet};
use che_tauri::json::{JsonNumber, JsonValue};
use che_tauri::model::{FieldType, ModelField};
use che_tauri::module::{ModelInfo, ModuleContext};
use che_tauri::serializer::{Field, ModelSerializer};
use che_tauri::state::AppState;

fn to_serde(v: &JsonValue) -> serde_json::Value {
    match v {
        JsonValue::Null => serde_json::Value::Null,
        JsonValue::Bool(b) => serde_json::Value::Bool(*b),
        JsonValue::Number(JsonNumber::PosInt(u)) => serde_json::Value::from(*u),
        JsonValue::Number(JsonNumber::NegInt(i)) => serde_json::Value::from(*i),
        JsonValue::Number(JsonNumber::Float(t)) => serde_json::from_str(t).unwrap(),
        JsonValue::String(s) => serde_json::Value::String(s.clone()),
        JsonValue::Array(a) => serde_json::Value::Array(a.iter().map(to_serde).collect()),
        JsonValue::Object(o) => serde_json::Value::Object(o.iter().map(|(k, x)| (k.clone(), to_serde(x))).collect()),
    }
}

fn json_text(v: &JsonValue) -> String {
    to_serde(v).to_string()
}

fn s(t: &str) -> JsonValue {
    JsonValue::String(t.to_string())
}

fn num(i: u64) -> JsonValue {
    JsonValue::Number(JsonNumber::PosInt(i))
}

fn obj(pairs: Vec<(&str, JsonValue)>) -> JsonValue {
    JsonValue::Object(pairs.into_iter().map(|(k, v)| (k.to_string(), v)).collect())
}

fn model() -> Vec<ModelField> {
    vec![
        ModelField::new("id", "id", FieldType::Integer, false, false),
        ModelField::new("name", "name", FieldType::Text, false, false),
    ]
}

fn serializer() -> ModelSerializer {
    ModelSerializer::new(vec![Field::new("id").read_only(), Field::new("name")], model())
}

fn filterset() -> FilterSet {
    FilterSet::new(vec![Filter::contains("name")], model())
}

fn remote(base: &str, auth: Option<&str>) -> Option<RemoteConfig> {
    Some(RemoteConfig { base_url: base.to_string(), auth_path: auth.map(|a| a.to_string()) })
}

fn config(remote_config: Option<RemoteConfig>) -> AppConfig {
    AppConfig { database: DatabaseConfig { url: "sqlite://app.sqlite?mode=rwc".to_string() }, remote: remote_config }
}

fn request(resource: &str, action: ApiAction, id: Option<i64>, payload: Option<JsonValue>) -> ApiRequest {
    ApiRequest { resource: resource.to_string(), action, id, params: vec![], payload }
}

fn users_remote() -> RemoteInvokeSet {
    RemoteInvokeSet::new("users", "/api/users/", serializer())
}

fn ok_request(r: Result<RemoteRequest, che_tauri::error::ApiError>) -> RemoteRequest {
    match r {
        Ok(q) => q,
        Err(e) => panic!("request refused: {}", e.detail),
    }
}

#[test]
fn missing_id_and_payload_are_bad_requests() {
    assert_eq!(required_id(Some(4), ApiAction::Retrieve).ok(), Some(4));
    match required_id(None, ApiAction::Delete) {
        Err(e) => {
            assert_eq!(e.code, "bad_request");
            assert_eq!(e.detail, "id is required for Delete");
        }
        Ok(_) => panic!("missing id accepted"),
    }
    match required_payload(None, ApiAction::Create) {
        Err(e) => assert_eq!(e.detail, "payload is required for Create"),
        Ok(_) => panic!("missing payload accepted"),
    }
    assert!(required_payload(Some(num(1)), ApiAction::Update).is_ok());
}

#[test]
fn calls_take_their_arguments() {
    match ResourceCall::from_request(request("users", ApiAction::Update, Some(3), Some(obj(vec![])))) {
        Ok(ResourceCall::Update(3, _)) => {}
        _ => panic!("update call not built"),
    }
    match ResourceCall::from_request(request("users", ApiAction::Update, None, None)) {
        Err(e) => assert_eq!(e.detail, "id is required for Update"),
        Ok(_) => panic!("update without id accepted"),
    }
    match ResourceCall::from_request(request("users", ApiAction::Update, Some(3), None)) {
        Err(e) => assert_eq!(e.detail, "payload is required for Update"),
        Ok(_) => panic!("update without payload accepted"),
    }
    let mut list = request("users", ApiAction::List, None, None);
    list.params = vec![("name__contains".to_string(), "Ali".to_string())];
    match ResourceCall::from_request(list) {
        Ok(ResourceCall::List(p)) => assert_eq!(p, vec![("name__contains".to_string(), "Ali".to_string())]),
        _ => panic!("list call not built"),
    }
    assert!(matches!(
        ResourceCall::from_request(request("users", ApiAction::Retrieve, Some(9), None)),
        Ok(ResourceCall::Retrieve(9))
    ));
    assert!(matches!(
        ResourceCall::from_request(request("users", ApiAction::Delete, Some(9), None)),
        Ok(ResourceCall::Delete(9))
    ));
    assert!(ResourceCall::from_request(request("users", ApiAction::Create, None, None)).is_err());
}

#[test]
fn list_answers_are_paginated() {
    let out = paginated(vec![obj(vec![("id", num(1))]), obj(vec![("id", num(2))])]);
    assert_eq!(json_text(&out), "{\"count\":2,\"results\":[{\"id\":1},{\"id\":2}]}");
    assert_eq!(json_text(&paginated(vec![])), "{\"count\":0,\"results\":[]}");
    assert_eq!(json_text(&deleted_response()), "{\"deleted\":true}");
}

#[test]
fn remote_url_joins_base_and_path() {
    let u = remote_url(&remote("https://api.example.com/", None), "/api/users/").ok();
    assert_eq!(u.as_deref(), Some("https://api.example.com/api/users"));
    match remote_url(&None, "/api/users/") {
        Err(e) => {
            assert_eq!(e.code, "bad_request");
            assert_eq!(e.detail, "remote resource requires [remote].base_url config");
        }
        Ok(_) => panic!("remote url without config"),
    }
}

#[test]
fn remote_actions_map_to_rest_requests() {
    let rc = remote("https://api.example.com", None);
    let res = users_remote();
    let list = ok_request(res.request(&rc, &None, &ResourceCall::List(vec![("page".to_string(), "2".to_string())])));
    assert_eq!(list.method, HttpMethod::Get);
    assert_eq!(list.url, "https://api.example.com/api/users/");
    assert_eq!(list.query, vec![("page".to_string(), "2".to_string())]);
    assert!(list.authorization.is_none());
    let get = ok_request(res.request(&rc, &None, &ResourceCall::Retrieve(1)));
    assert_eq!(get.method, HttpMethod::Get);
    assert_eq!(get.url, "https://api.example.com/api/users/1/");
    let create = ok_request(res.request(&rc, &None, &ResourceCall::Create(obj(vec![("name", s("Al"))]))));
    assert_eq!(create.method, HttpMethod::Post);
    assert_eq!(create.url, "https://api.example.com/api/users/");
    assert_eq!(create.body.as_ref().map(json_text).as_deref(), Some("{\"name\":\"Al\"}"));
    let update = ok_request(res.request(&rc, &None, &ResourceCall::Update(-1, obj(vec![("name", s("B"))]))));
    assert_eq!(update.method, HttpMethod::Patch);
    assert_eq!(update.url, "https://api.example.com/api/users/-1/");
    let delete = ok_request(res.request(&rc, &None, &ResourceCall::Delete(12)));
    assert_eq!(delete.method, HttpMethod::Delete);
    assert_eq!(delete.url, "https://api.example.com/api/users/12/");
    assert!(delete.body.is_none());
}

#[test]
fn remote_create_is_validated_before_sending() {
    let rc = remote("https://api.example.com", None);
    match users_remote().request(&rc, &None, &ResourceCall::Create(obj(vec![("id", num(1)), ("name", s("A"))]))) {
        Err(e) => {
            assert_eq!(e.code, "bad_request");
            assert_eq!(e.detail, "field is read-only: id");
        }
        Ok(_) => panic!("read-only field sent"),
    }
    match remote_request(&None, "/api/users/", &None, &ResourceCall::Create(obj(vec![])), &serializer(), &filterset()) {
        Err(e) => assert_eq!(e.detail, "missing field: name"),
        Ok(_) => panic!("invalid payload sent"),
    }
    match remote_request(&None, "/api/users/", &None, &ResourceCall::Retrieve(1), &serializer(), &filterset()) {
        Err(e) => assert_eq!(e.detail, "remote resource requires [remote].base_url config"),
        Ok(_) => panic!("request without remote config"),
    }
}

#[test]
fn stored_token_is_sent_as_authorization() {
    assert_eq!(authorization_header(&Some("abc".to_string())).as_deref(), Some("Token abc"));
    assert!(authorization_header(&None).is_none());
    let mut api = TauriApi::new(AppState::new(config(remote("https://api.example.com", None))));
    let res = users_remote();
    assert!(!api.is_authenticated());
    api.set_auth_token("abc".to_string());
    assert!(api.is_authenticated());
    let q = ok_request(api.remote_request(&res, &ResourceCall::Retrieve(2)));
    assert_eq!(q.authorization.as_deref(), Some("Token abc"));
    api.logout();
    assert!(!api.is_authenticated());
    let q = ok_request(api.remote_request(&res, &ResourceCall::Retrieve(2)));
    assert!(q.authorization.is_none());
    assert_eq!(q.url, "https://api.example.com/api/users/2/");
}

#[test]
fn login_posts_credentials_to_the_auth_path() {
    let q = ok_request(login_request(&remote("https://api.example.com/", Some("/api-token-auth/")), "al", "pw"));
    assert_eq!(q.method, HttpMethod::Post);
    assert_eq!(q.url, "https://api.example.com/api-token-auth/");
    assert_eq!(q.body.as_ref().map(json_text).as_deref(), Some("{\"password\":\"pw\",\"username\":\"al\"}"));
    assert!(q.authorization.is_none());
    match login_request(&remote("https://api.example.com", None), "al", "pw") {
        Err(e) => assert_eq!(e.detail, "remote login requires [remote].auth_path config"),
        Ok(_) => panic!("login without auth path"),
    }
    let api = TauriApi::new(AppState::new(config(None)));
    match api.login_request("al", "pw") {
        Err(e) => assert_eq!(e.detail, "remote resource requires [remote].base_url config"),
        Ok(_) => panic!("login without remote"),
    }
}

#[test]
fn login_answer_gives_the_token() {
    match AuthTokenResponse::from_answer(&obj(vec![("token", s("t0k"))])) {
        Ok(t) => assert_eq!(t.token, "t0k"),
        Err(_) => panic!("token missing"),
    }
    for bad in [obj(vec![("token", num(3))]), obj(vec![]), s("t0k")] {
        match AuthTokenResponse::from_answer(&bad) {
            Err(e) => {
                assert_eq!(e.code, "remote_error");
                assert_eq!(e.detail, "remote login response has no token");
            }
            Ok(_) => panic!("token read from a bad answer"),
        }
    }
}

#[test]
fn remote_failures_name_the_status() {
    let e = remote_failure("404 Not Found", Some("missing".to_string()));
    assert_eq!(e.code, "remote_error");
    assert_eq!(e.detail, "remote request failed with 404 Not Found: missing");
    let e = remote_failure("500 Internal Server Error", None);
    assert_eq!(e.detail, "remote request failed with 500 Internal Server Error: failed to read remote error response");
    let e = remote_transport_error("connection refused".to_string());
    assert_eq!(e.code, "remote_error");
    assert_eq!(e.detail, "connection refused");
}

#[test]
fn mapped_answers_are_normalized_raw_ones_pass() {
    let ser = serializer();
    let call = ResourceCall::List(vec![]);
    let answer = obj(vec![("count", num(1)), ("results", JsonValue::Array(vec![obj(vec![("id", num(1)), ("x", num(0))])]))]);
    let fs = filterset();
    let mapped = remote_answer(RemoteMode::Mapped, &call, answer, &ser, &fs);
    assert_eq!(json_text(&mapped), "{\"count\":1,\"results\":[{\"id\":1,\"name\":\"\"}]}");
    let raw = remote_answer(RemoteMode::Raw, &call, obj(vec![("x", num(0))]), &ser, &fs);
    assert_eq!(json_text(&raw), "{\"x\":0}");
    let arr = remote_answer(RemoteMode::CachedMapped, &call, JsonValue::Array(vec![obj(vec![("name", s("A"))])]), &ser, &fs);
    assert_eq!(json_text(&arr), "[{\"id\":0,\"name\":\"A\"}]");
    let one = remote_answer(RemoteMode::Mapped, &ResourceCall::Retrieve(1), obj(vec![("id", num(1)), ("name", s("A"))]), &ser, &fs);
    assert_eq!(json_text(&one), "{\"id\":1,\"name\":\"A\"}");
    let deleted = remote_answer(RemoteMode::Mapped, &ResourceCall::Delete(1), deleted_response(), &ser, &fs);
    assert_eq!(json_text(&deleted), "{\"deleted\":true}");
}

#[test]
fn remote_invoke_sets_keep_their_mode() {
    assert_eq!(users_remote().mode(), RemoteMode::Raw);
    let raw = RemoteInvokeSet::with_mode("users", "/api/users/", serializer(), filterset(), RemoteMode::CachedMapped);
    assert_eq!(raw.mode(), RemoteMode::CachedMapped);
    assert_eq!(raw.resource(), "users");
}

#[test]
fn model_invoke_set_builds_queries_and_values() {
    let set = ModelInvokeSet::new("users", serializer(), filterset());
    assert_eq!(set.resource(), "users");
    assert!(set.list_query(&vec![("name__contains".to_string(), "A".to_string())]).is_ok());
    match set.list_query(&vec![("email".to_string(), "x".to_string())]) {
        Err(e) => assert_eq!(e.detail, "unknown filter: email"),
        Ok(_) => panic!("unknown filter accepted"),
    }
    assert!(set.create_values(&obj(vec![("name", s("A"))])).is_ok());
    match set.update_values(&obj(vec![("id", num(3))])) {
        Err(e) => {
            assert_eq!(e.code, "bad_request");
            assert_eq!(e.detail, "field is read-only: id");
        }
        Ok(_) => panic!("read-only update accepted"),
    }
}

fn info(name: &str) -> ModelInfo {
    ModelInfo {
        model_name: name.to_string(),
        table_name: name.to_lowercase(),
        primary_key: Some("id".to_string()),
        create_table_sql: format!("CREATE TABLE {name} (id INTEGER)"),
    }
}

#[test]
fn install_registers_resources_by_name() {
    let mut ctx = ModuleContext::new();
    ctx.resource(info("User"), "users", serializer(), filterset());
    ctx.mapped_remote_resource(info("Post"), "posts", "/api/posts/", serializer(), filterset());
    let api = TauriApi::new(AppState::new(config(None))).install(ctx);
    assert_eq!(api.sql(), &vec!["CREATE TABLE User (id INTEGER)".to_string()]);
    match api.resource("users") {
        Ok(r) => {
            assert_eq!(r.resource(), "users");
            assert!(matches!(r.inner, InvokeSet::Model(_)));
        }
        Err(_) => panic!("users not registered"),
    }
    match api.resource("posts") {
        Ok(r) => assert!(matches!(&r.inner, InvokeSet::Remote(x) if x.mode() == RemoteMode::Mapped)),
        Err(_) => panic!("posts not registered"),
    }
    match api.resource("comments") {
        Err(e) => {
            assert_eq!(e.code, "not_found");
            assert_eq!(e.detail, "unknown resource: comments");
        }
        Ok(_) => panic!("unknown resource found"),
    }
}

#[test]
fn last_registration_of_a_name_wins() {
    let mut ctx = ModuleContext::new();
    ctx.resource(info("User"), "users", serializer(), filterset());
    ctx.raw_remote_resource(info("User"), "users", "/api/users/", serializer(), filterset());
    let api = TauriApi::new(AppState::new(config(None))).install(ctx);
    match api.resource("users") {
        Ok(r) => assert!(matches!(&r.inner, InvokeSet::Remote(x) if x.mode() == RemoteMode::Raw)),
        Err(_) => panic!("users not registered"),
    }
}

#[test]
fn plan_checks_resource_before_arguments() {
    let mut ctx = ModuleContext::new();
    ctx.resource(info("User"), "users", serializer(), filterset());
    let api = TauriApi::new(AppState::new(config(None))).install(ctx);
    match api.plan(request("nope", ApiAction::Retrieve, None, None)) {
        Err(e) => assert_eq!(e.detail, "unknown resource: nope"),
        Ok(_) => panic!("unknown resource planned"),
    }
    match api.plan(request("users", ApiAction::Retrieve, None, None)) {
        Err(e) => assert_eq!(e.detail, "id is required for Retrieve"),
        Ok(_) => panic!("retrieve without id planned"),
    }
    match api.plan(request("users", ApiAction::Retrieve, Some(5), None)) {
        Ok((r, ResourceCall::Retrieve(5))) => assert_eq!(r.resource(), "users"),
        _ => panic!("retrieve not planned"),
    }
}

fn remote_filterset() -> FilterSet {
    FilterSet::new(
        vec![
            Filter::contains("name").remote("search"),
            Filter::remote_only("team"),
            Filter::exact("id").local_only(),
            Filter::exact("name").remote_disabled(),
        ],
        model(),
    )
    .remote_ordering("sort")
}

fn params(pairs: &[(&str, &str)]) -> Vec<(String, String)> {
    pairs.iter().map(|(k, v)| (k.to_string(), v.to_string())).collect()
}

#[test]
fn remote_list_forwards_parameters_as_filters_say() {
    let res = RemoteInvokeSet::with_mode("users", "/api/users/", serializer(), remote_filterset(), RemoteMode::Mapped);
    let rc = remote("https://api.example.com", None);
    let call = ResourceCall::List(params(&[
        ("name__contains", "Al"),
        ("team", "7"),
        ("id", "3"),
        ("name", "Al"),
        ("ordering", "-id"),
        ("limit", "5"),
        ("page", "2"),
    ]));
    let q = ok_request(res.request(&rc, &None, &call));
    assert_eq!(q.query, params(&[("search", "Al"), ("team", "7"), ("sort", "-id"), ("limit", "5"), ("page", "2")]));
    let plain = users_remote();
    let q = ok_request(plain.request(&rc, &None, &ResourceCall::List(params(&[("ordering", "id"), ("x", "1")]))));
    assert_eq!(q.query, params(&[("ordering", "id"), ("x", "1")]));
}

#[test]
fn local_only_filters_apply_to_mapped_answers() {
    let res = RemoteInvokeSet::with_mode("users", "/api/users/", serializer(), remote_filterset(), RemoteMode::Mapped);
    let items = JsonValue::Array(vec![
        obj(vec![("id", num(3)), ("name", s("Al"))]),
        obj(vec![("id", num(4)), ("name", s("Bo"))]),
        obj(vec![("id", num(3)), ("name", s("Cy"))]),
    ]);
    let out = res.answer(&ResourceCall::List(params(&[("id", "3"), ("name", "Bo")])), items);
    assert_eq!(json_text(&out), "[{\"id\":3,\"name\":\"Al\"},{\"id\":3,\"name\":\"Cy\"}]");
    let page = obj(vec![("count", num(2)), ("results", JsonValue::Array(vec![obj(vec![("id", num(9))]), obj(vec![("id", num(3))])]))]);
    let out = res.answer(&ResourceCall::List(params(&[("id", "3")])), page);
    assert_eq!(json_text(&out), "{\"count\":2,\"results\":[{\"id\":3,\"name\":\"\"}]}");
    let raw = RemoteInvokeSet::with_mode("users", "/api/users/", serializer(), remote_filterset(), RemoteMode::Raw);
    let items = JsonValue::Array(vec![obj(vec![("id", num(4))])]);
    assert_eq!(json_text(&raw.answer(&ResourceCall::List(params(&[("id", "3")])), items)), "[{\"id\":4}]");
}

#[test]
fn remote_only_filters_do_not_apply_locally() {
    let set = ModelInvokeSet::new("users", serializer(), remote_filterset());
    match set.list_query(&params(&[("team", "7"), ("id", "3")])) {
        Ok(ops) => assert_eq!(ops.len(), 1),
        Err(e) => panic!("refused: {}", e.detail),
    }
    match set.list_query(&params(&[("nope", "1")])) {
        Err(e) => assert_eq!(e.detail, "unknown filter: nope"),
        Ok(_) => panic!("unknown filter accepted"),
    }
}

#[test]
fn registrations_describe_their_resource() {
    let local = ResourceRegistration::from_model("users", serializer(), filterset());
    assert_eq!(local.resource, "users");
    assert_eq!(local.fields.len(), 2);
    assert_eq!(local.filters.len(), 1);
    assert!(matches!(local.invoke_resource.inner, InvokeSet::Model(_)));
    let remote = ResourceRegistration::from_remote_model("posts", "/api/posts/", serializer(), filterset());
    assert_eq!(remote.invoke_resource.resource(), "posts");
    assert!(matches!(&remote.invoke_resource.inner, InvokeSet::Remote(r) if r.mode() == RemoteMode::Raw));
}
