use che_tauri::config::{AppConfig, DatabaseConfig, RemoteConfig};
use che_tauri::error::{ApiError, OrmErrorKind};
use che_tauri::filters::FilterError;
use che_tauri::json::{JsonNumber, JsonValue};
use che_tauri::model::{FieldType, ModelField, SqliteValue};
use che_tauri::serializer::{Field, ModelSerializer};
use che_tauri::serializer::SerializerError;
use che_tauri::state::AppState;
use che_tauri::text::{
    i64_text, join_strings, parse_i64_text, parse_u32_text, str_ends_with, trim_end_matches, trim_matches,
    u64_text,
};

fn config() -> AppConfig {
    AppConfig {
        database: DatabaseConfig { url: "sqlite://app.sqlite?mode=rwc".to_string() },
        remote: Some(RemoteConfig {
            base_url: "https://api.example.com".to_string(),
            auth_path: Some("/api-token-auth/".to_string()),
        }),
    }
}

#[test]
fn token_is_read_back_after_it_is_stored() {
    let mut state = AppState::new(config());
    assert_eq!(state.auth_token(), None);
    assert!(!state.is_authenticated());
    state.set_auth_token("first".to_string());
    assert_eq!(state.auth_token().as_deref(), Some("first"));
    state.set_auth_token("second".to_string());
    assert_eq!(state.auth_token().as_deref(), Some("second"));
    assert!(state.is_authenticated());
    state.clear_auth_token();
    assert_eq!(state.auth_token(), None);
    assert_eq!(state.config().database.url, "sqlite://app.sqlite?mode=rwc");
}

#[test]
fn remote_config_can_be_replaced() {
    let mut state = AppState::new(config());
    assert_eq!(state.remote_config().map(|r| r.base_url).as_deref(), Some("https://api.example.com"));
    assert_eq!(state.remote_config_ref().as_ref().and_then(|r| r.auth_path.clone()).as_deref(), Some("/api-token-auth/"));
    state.set_remote_config(Some(RemoteConfig { base_url: "http://localhost:8000".to_string(), auth_path: None }));
    assert_eq!(state.config().remote.map(|r| r.base_url).as_deref(), Some("http://localhost:8000"));
    state.set_auth_token("t".to_string());
    state.set_remote_config(None);
    assert!(state.remote_config().is_none());
    assert_eq!(state.auth_token().as_deref(), Some("t"));
    assert_eq!(state.config().database.url, "sqlite://app.sqlite?mode=rwc");
}

#[test]
fn errors_carry_code_and_detail() {
    let e = ApiError::new("custom", "x".to_string());
    assert_eq!((e.code, e.detail.as_str()), ("custom", "x"));
    assert_eq!(ApiError::bad_request("a".to_string()).code, "bad_request");
    assert_eq!(ApiError::not_found("a".to_string()).code, "not_found");
    assert_eq!(ApiError::internal("a".to_string()).code, "internal_error");
    assert_eq!(ApiError::internal("shown".to_string()).message(), "shown");
    let e = ApiError::from_serializer(&SerializerError::MissingField("name".to_string()));
    assert_eq!((e.code, e.detail.as_str()), ("bad_request", "missing field: name"));
    let e = ApiError::from_filter(&FilterError::UnknownFilter("q".to_string()));
    assert_eq!((e.code, e.detail.as_str()), ("bad_request", "unknown filter: q"));
    assert_eq!(ApiError::from_io("no such file".to_string()).code, "internal_error");
    assert_eq!(ApiError::from_toml("expected `=`".to_string()).code, "bad_request");
}

#[test]
fn database_failures_map_to_codes() {
    let cases = [
        (OrmErrorKind::UnknownField, "bad_request"),
        (OrmErrorKind::ReadonlyField, "bad_request"),
        (OrmErrorKind::EmptyUpdate, "bad_request"),
        (OrmErrorKind::MissingPrimaryKey, "bad_request"),
        (OrmErrorKind::RowNotFound, "not_found"),
        (OrmErrorKind::Database, "database_error"),
        (OrmErrorKind::Io, "internal_error"),
        (OrmErrorKind::Json, "internal_error"),
    ];
    for (kind, code) in cases {
        let e = ApiError::from_orm(kind, "boom".to_string());
        assert_eq!(e.code, code);
        assert_eq!(e.detail, "boom");
    }
}

#[test]
fn json_fields_keep_their_json_through_a_row() {
    let ser = ModelSerializer::new(
        vec![Field::json("meta")],
        vec![ModelField::new("meta", "meta", FieldType::Text, false, false)],
    );
    let v = JsonValue::Object(vec![
        ("b".to_string(), JsonValue::Array(vec![JsonValue::Null, JsonValue::Bool(false)])),
        ("a".to_string(), JsonValue::Number(JsonNumber::NegInt(-3))),
        ("c".to_string(), JsonValue::Number(JsonNumber::Float("1.5".to_string()))),
        ("d".to_string(), JsonValue::String("q\"uote".to_string())),
        ("e".to_string(), JsonValue::Number(JsonNumber::PosInt(u64::MAX))),
    ]);
    let values = ser.create_values(&JsonValue::Object(vec![("meta".to_string(), v)])).ok().expect("payload refused");
    let stored = match &values[0].1 {
        SqliteValue::String(t) => t.clone(),
        _ => panic!("json field not stored as text"),
    };
    assert_eq!(stored, "{\"a\":-3,\"b\":[null,false],\"c\":1.5,\"d\":\"q\\\"uote\",\"e\":18446744073709551615}");
    let out = ser.to_json(&vec![("meta".to_string(), JsonValue::String(stored.clone()))]);
    let meta = match out {
        JsonValue::Object(mut e) => e.remove(0).1,
        _ => panic!("not an object"),
    };
    match &meta {
        JsonValue::Object(e) => {
            assert_eq!(e.len(), 5);
            assert!(matches!(e[0], (ref k, JsonValue::Number(JsonNumber::NegInt(-3))) if k == "a"));
            assert!(matches!(e[2], (ref k, JsonValue::Number(JsonNumber::Float(ref t))) if k == "c" && t == "1.5"));
            assert!(matches!(e[4], (ref k, JsonValue::Number(JsonNumber::PosInt(u64::MAX))) if k == "e"));
        }
        _ => panic!("stored text not read back as JSON"),
    }
}

#[test]
fn text_helpers() {
    assert_eq!(u64_text(0), "0");
    assert_eq!(u64_text(1234567890123), "1234567890123");
    assert_eq!(i64_text(i64::MIN), "-9223372036854775808");
    assert_eq!(parse_i64_text("-9223372036854775808"), Some(i64::MIN));
    assert_eq!(parse_i64_text("9223372036854775808"), None);
    assert_eq!(parse_i64_text("+5"), Some(5));
    assert_eq!(parse_i64_text("-"), None);
    assert_eq!(parse_u32_text("007"), Some(7));
    assert_eq!(parse_u32_text(" 7"), None);
    assert!(str_ends_with("team_id", "_id"));
    assert!(!str_ends_with("id", "_id"));
    assert_eq!(join_strings(&vec!["a".to_string(), "b".to_string()], ", "), "a, b");
    assert_eq!(join_strings(&vec![], ", "), "");
    assert_eq!(trim_end_matches("https://x///", '/'), "https://x");
    assert_eq!(trim_matches("//api/users//", '/'), "api/users");
    assert_eq!(trim_matches("///", '/'), "");
}
