use che_tauri::json::{object_get, object_insert, JsonNumber, JsonValue};
use che_tauri::model::{FieldType, ModelField, SqliteValue};
use che_tauri::serializer::{
    cache_id, coerce_text_value, lookup_remote_value, merge_with_existing, serialize_json_field, sqlite_value_from_object,
    update_fields, upsert_sql, validate_max_length, validate_object, validate_type, Field, ModelSerializer, SerializerError,
};

fn to_serde(v: &JsonValue) -> serde_json::Value {
    match v {
        JsonValue::Null => serde_json::Value::Null,
        JsonValue::Bool(b) => serde_json::Value::Bool(*b),
        JsonValue::Number(JsonNumber::PosInt(u)) => serde_json::Value::from(*u),
        JsonValue::Number(JsonNumber::NegInt(i)) => serde_json::Value::from(*i),
        JsonValue::Number(JsonNumber::Float(t)) => serde_json::from_str(t).unwrap(),
        JsonValue::String(s) => serde_json::Value::String(s.clone()),
        JsonValue::Array(a) => serde_json::Value::Array(a.iter().map(to_serde).collect()),
        JsonValue::Object(o) => serde_json::Value::Object(o.iter().map(|(k, x)| (k.clone(), to_serde(x))).collect()),
    }
}

fn json_text(v: &JsonValue) -> String {
    to_serde(v).to_string()
}

fn s(t: &str) -> JsonValue {
    JsonValue::String(t.to_string())
}

fn num(i: u64) -> JsonValue {
    JsonValue::Number(JsonNumber::PosInt(i))
}

fn obj(pairs: Vec<(&str, JsonValue)>) -> JsonValue {
    JsonValue::Object(pairs.into_iter().map(|(k, v)| (k.to_string(), v)).collect())
}

fn entries(pairs: Vec<(&str, JsonValue)>) -> Vec<(String, JsonValue)> {
    pairs.into_iter().map(|(k, v)| (k.to_string(), v)).collect()
}

fn text(v: &JsonValue) -> String {
    json_text(v)
}

fn keys(v: &JsonValue) -> Vec<String> {
    match v {
        JsonValue::Object(e) => e.iter().map(|(k, _)| k.clone()).collect(),
        _ => panic!("not an object"),
    }
}

fn user_model() -> Vec<ModelField> {
    vec![
        ModelField::new("id", "id", FieldType::Integer, false, false),
        ModelField::new("email", "email", FieldType::Text, false, false),
        ModelField::new("name", "name", FieldType::Text, false, false),
        ModelField::new("is_active", "is_active", FieldType::Boolean, false, true),
        ModelField::new("bio", "bio", FieldType::Text, true, false),
        ModelField::new("settings", "settings", FieldType::Text, false, false),
        ModelField::new("team_id", "team_id", FieldType::Integer, true, false),
    ]
}

fn user_serializer() -> ModelSerializer {
    ModelSerializer::new(
        vec![
            Field::new("id").read_only(),
            Field::new("email").max_length(12),
            Field::new("name"),
            Field::new("is_active").default(JsonValue::Bool(true)),
            Field::new("bio").required(false).nullable(),
            Field::json("settings").required(false),
            Field::new("password").source("name").write_only().required(false),
        ],
        user_model(),
    )
}

fn error_text(r: Result<Vec<(String, SqliteValue)>, SerializerError>) -> String {
    match r {
        Err(e) => e.message(),
        Ok(_) => panic!("payload accepted"),
    }
}

#[test]
fn field_builders_set_their_flags() {
    let f = Field::new("email");
    assert_eq!(f.name, "email");
    assert_eq!(f.source, "email");
    assert!(f.required && !f.read_only && !f.write_only && !f.nullable && !f.json);
    assert!(!f.has_default());
    let f = Field::new("email").source("mail").read_only().nullable().max_length(5);
    assert_eq!(f.source, "mail");
    assert!(f.read_only && f.nullable);
    assert_eq!(f.max_length, Some(5));
    let f = Field::new("secret").write_only();
    assert!(f.write_only);
    let f = Field::new("tags").ts_type("string[]").input_ts_type("string");
    assert_eq!(f.ts_type.as_deref(), Some("string[]"));
    assert_eq!(f.input_ts_type.as_deref(), Some("string"));
    let f = Field::new("n").default(num(1));
    assert!(f.has_default());
    assert!(!f.without_default().has_default());
    let f = Field::related("team", "team_id", "Team");
    assert_eq!(f.relation.as_deref(), Some("Team"));
    assert!(f.read_only && !f.required);
    assert!(Field::json("meta").json);
}

#[test]
fn create_values_validate_and_convert() {
    let ser = user_serializer();
    let payload = obj(vec![("email", s("a@b.c")), ("name", s("Alice")), ("bio", JsonValue::Null)]);
    let values = ser.create_values(&payload).ok().expect("valid payload refused");
    let names: Vec<&str> = values.iter().map(|(k, _)| k.as_str()).collect();
    assert_eq!(names, vec!["bio", "email", "is_active", "name"]);
    assert!(matches!(&values[1].1, SqliteValue::String(t) if t == "a@b.c"));
    assert!(matches!(values[2].1, SqliteValue::Bool(true)));
    assert!(matches!(values[0].1, SqliteValue::Null));
}

#[test]
fn create_refuses_each_kind_of_bad_payload() {
    let ser = user_serializer();
    assert_eq!(error_text(ser.create_values(&s("x"))), "expected a JSON object");
    assert_eq!(
        error_text(ser.create_values(&obj(vec![("email", s("a")), ("name", s("b")), ("age", num(3))]))),
        "unknown field: age"
    );
    assert_eq!(
        error_text(ser.create_values(&obj(vec![("id", num(1)), ("email", s("a")), ("name", s("b"))]))),
        "field is read-only: id"
    );
    assert_eq!(error_text(ser.create_values(&obj(vec![("email", s("a"))]))), "missing field: name");
    assert_eq!(
        error_text(ser.create_values(&obj(vec![("email", s("a")), ("name", JsonValue::Null)]))),
        "null is not allowed for field: name"
    );
    assert_eq!(
        error_text(ser.create_values(&obj(vec![("email", s("a")), ("name", num(4))]))),
        "invalid type for field name, expected string"
    );
    assert_eq!(
        error_text(ser.create_values(&obj(vec![("email", s("abcdefghijklm")), ("name", s("b"))]))),
        "field email exceeds max length 12"
    );
}

#[test]
fn json_field_is_stored_as_text() {
    let ser = user_serializer();
    let payload = obj(vec![
        ("email", s("a")),
        ("name", s("b")),
        ("settings", obj(vec![("theme", s("dark"))])),
    ]);
    let values = ser.create_values(&payload).ok().expect("payload refused");
    let settings = values.iter().find(|(k, _)| k == "settings").expect("settings missing");
    assert!(matches!(&settings.1, SqliteValue::String(t) if t == "{\"theme\":\"dark\"}"));
}

#[test]
fn update_values_make_every_field_optional() {
    let ser = user_serializer();
    let values = ser.update_values(&obj(vec![("name", s("Alicia"))])).ok().expect("partial update refused");
    assert_eq!(values.len(), 1);
    assert_eq!(values[0].0, "name");
    let values = ser.update_values(&obj(vec![])).ok().expect("empty update refused");
    assert_eq!(values.len(), 0);
    let fields = update_fields(&ser.fields);
    assert!(fields.iter().all(|f| f.read_only || (!f.required && !f.has_default())));
}

#[test]
fn validate_json_keys_by_source() {
    let ser = user_serializer();
    let data = ser.validate_json(&obj(vec![("email", s("a")), ("name", s("b")), ("password", s("pw"))]))
        .ok()
        .expect("payload refused");
    let names: Vec<&str> = data.iter().map(|(k, _)| k.as_str()).collect();
    assert_eq!(names, vec!["email", "is_active", "name"]);
    assert_eq!(text(&data[2].1), "\"pw\"");
}

#[test]
fn type_and_length_checks() {
    assert!(validate_type("n", FieldType::Integer, &num(3)).is_ok());
    assert!(validate_type("n", FieldType::Integer, &JsonValue::Number(JsonNumber::NegInt(-3))).is_ok());
    assert!(validate_type("n", FieldType::Real, &JsonValue::Number(JsonNumber::Float("1.5".to_string()))).is_ok());
    match validate_type("n", FieldType::Boolean, &s("x")) {
        Err(e) => assert_eq!(e.message(), "invalid type for field n, expected boolean"),
        Ok(_) => panic!("text accepted as boolean"),
    }
    match validate_type("n", FieldType::Integer, &JsonValue::Number(JsonNumber::Float("1.5".to_string()))) {
        Err(e) => assert_eq!(e.message(), "invalid type for field n, expected integer"),
        Ok(_) => panic!("float accepted as integer"),
    }
    assert!(validate_max_length("t", 3, &s("héé")).is_ok());
    assert!(validate_max_length("t", 3, &s("abcd")).is_err());
    assert!(validate_max_length("t", 0, &num(12345)).is_ok());
}

#[test]
fn error_messages_read_as_display() {
    assert_eq!(SerializerError::InvalidModelField("x".to_string()).message(), "invalid model field: x");
    assert_eq!(SerializerError::Json("bad".to_string()).message(), "json error: bad");
    assert_eq!(
        SerializerError::MaxLengthExceeded { field: "f".to_string(), max_length: 40 }.message(),
        "field f exceeds max length 40"
    );
}

#[test]
fn serializer_on_missing_model_field_is_refused() {
    let ser = ModelSerializer::new(vec![Field::new("ghost")], user_model());
    assert_eq!(error_text(ser.create_values(&obj(vec![("ghost", num(1))]))), "invalid model field: ghost");
}

#[test]
fn to_json_outputs_readable_fields() {
    let ser = user_serializer();
    let record = entries(vec![
        ("id", num(7)),
        ("email", s("a@b.c")),
        ("name", s("Alice")),
        ("is_active", JsonValue::Bool(true)),
        ("settings", s("{\"theme\":\"dark\"}")),
    ]);
    let out = ser.to_json(&record);
    assert_eq!(keys(&out), vec!["bio", "email", "id", "is_active", "name", "settings"]);
    assert_eq!(
        text(&out),
        "{\"bio\":null,\"email\":\"a@b.c\",\"id\":7,\"is_active\":true,\"name\":\"Alice\",\"settings\":{\"theme\":\"dark\"}}"
    );
}

#[test]
fn json_field_with_bad_text_reads_as_null() {
    let ser = ModelSerializer::new(vec![Field::json("settings")], user_model());
    let out = ser.to_json(&entries(vec![("settings", s("{not json"))]));
    assert_eq!(text(&out), "{\"settings\":null}");
}

#[test]
fn related_fields_are_output_with_their_model() {
    let ser = ModelSerializer::new(vec![Field::new("id"), Field::related("team", "team_id", "Team")], user_model());
    let record = entries(vec![("id", num(1)), ("team_id", num(5))]);
    assert_eq!(text(&ser.to_json(&record)), "{\"id\":1}");
    let related = vec![None, Some(obj(vec![("id", num(5)), ("name", s("Core"))]))];
    assert_eq!(text(&ser.to_json_with_related(&record, &related)), "{\"id\":1,\"team\":{\"id\":5,\"name\":\"Core\"}}");
    let none = vec![None, None];
    assert_eq!(text(&ser.to_json_with_related(&record, &none)), "{\"id\":1,\"team\":null}");
}

#[test]
fn remote_lookup_follows_dotted_paths() {
    let o = entries(vec![("profile", obj(vec![("name", s("Al"))])), ("id", num(3))]);
    assert_eq!(lookup_remote_value(&o, "profile.name").map(text), Some("\"Al\"".to_string()));
    assert_eq!(lookup_remote_value(&o, "id").map(text), Some("3".to_string()));
    assert!(lookup_remote_value(&o, "profile.age").is_none());
    assert!(lookup_remote_value(&o, "id.x").is_none());
}

#[test]
fn nested_objects_coerce_to_text_or_id() {
    assert_eq!(coerce_text_value(&entries(vec![("title", s("T")), ("name", s("N"))])), Some("N".to_string()));
    assert_eq!(coerce_text_value(&entries(vec![("label", s("L"))])), Some("L".to_string()));
    assert_eq!(coerce_text_value(&entries(vec![("id", num(9))])), Some("9".to_string()));
    assert_eq!(coerce_text_value(&entries(vec![("other", s("x"))])), None);
    assert!(matches!(sqlite_value_from_object(&entries(vec![("id", num(9))])), Some(SqliteValue::I64(9))));
    assert!(sqlite_value_from_object(&entries(vec![("id", s("9"))])).is_none());
}

#[test]
fn normalized_remote_object_has_every_readable_field() {
    let ser = ModelSerializer::new(
        vec![
            Field::new("id"),
            Field::new("display_name").source("profile.name"),
            Field::new("team_id"),
            Field::new("email"),
            Field::new("is_active"),
            Field::new("password").write_only(),
        ],
        user_model(),
    );
    let remote = obj(vec![
        ("id", num(3)),
        ("profile", obj(vec![("name", s("Al"))])),
        ("team_id", obj(vec![("id", num(8)), ("name", s("Core"))])),
        ("password", s("secret")),
        ("extra", s("dropped")),
    ]);
    let out = ser.normalize_remote_value(remote);
    assert_eq!(keys(&out), vec!["display_name", "email", "id", "is_active", "team_id"]);
    assert_eq!(
        text(&out),
        "{\"display_name\":\"Al\",\"email\":\"\",\"id\":3,\"is_active\":false,\"team_id\":8}"
    );
    assert_eq!(text(&ser.normalize_remote_value(s("plain"))), "\"plain\"");
}

#[test]
fn cache_values_convert_nested_objects() {
    let ser = ModelSerializer::new(
        vec![Field::new("id"), Field::new("name"), Field::new("team_id").nullable(), Field::new("bio").required(false)],
        user_model(),
    );
    let remote = obj(vec![
        ("id", num(3)),
        ("name", obj(vec![("short_name", s("Al"))])),
        ("team_id", obj(vec![("id", num(8))])),
    ]);
    let values = ser.cache_values(&remote).ok().expect("remote object refused");
    assert_eq!(values.len(), 4);
    assert!(matches!(values[0].1, SqliteValue::I64(3)));
    assert!(matches!(&values[1].1, SqliteValue::String(t) if t == "Al"));
    assert!(matches!(values[2].1, SqliteValue::I64(8)));
    assert!(matches!(values[3].1, SqliteValue::Null));
    match ser.cache_values(&obj(vec![("id", num(1))])) {
        Err(e) => assert_eq!(e.message(), "missing field: name"),
        Ok(_) => panic!("missing name accepted"),
    }
}

#[test]
fn merge_keeps_remote_values() {
    let merged = merge_with_existing(
        &entries(vec![("id", num(1)), ("name", s("new"))]),
        &entries(vec![("name", s("old")), ("email", s("a@b.c"))]),
    );
    assert_eq!(text(&JsonValue::Object(merged)), "{\"email\":\"a@b.c\",\"id\":1,\"name\":\"new\"}");
}

#[test]
fn cache_plan_merges_and_skips_failures() {
    let ser = ModelSerializer::new(vec![Field::new("id"), Field::new("name")], user_model());
    let remote = obj(vec![("id", num(4))]);
    assert!(ser.cache_plan(&remote, None).is_none());
    let stored = obj(vec![("id", num(4)), ("name", s("kept"))]);
    let plan = ser.cache_plan(&remote, Some(&stored)).expect("plan missing");
    assert_eq!(plan.len(), 2);
    assert!(matches!(&plan[1].1, SqliteValue::String(t) if t == "kept"));
    assert!(ser.cache_plan(&s("x"), None).is_none());
    let empty = ModelSerializer::new(vec![], user_model());
    assert!(empty.cache_plan(&obj(vec![("id", num(4))]), None).is_none());
    assert_eq!(cache_id(&remote), Some(4));
    assert_eq!(cache_id(&obj(vec![("id", s("4"))])), None);
}

#[test]
fn nested_relation_objects_are_listed() {
    let ser = ModelSerializer::new(
        vec![Field::new("id"), Field::related("team", "team_id", "Team"), Field::related("owner", "owner_id", "User")],
        user_model(),
    );
    let remote = obj(vec![("team", obj(vec![("id", num(2))])), ("owner", num(5))]);
    let nested = ser.nested_relation_objects(&remote);
    assert_eq!(nested.len(), 1);
    assert_eq!(nested[0].0, 1);
    assert_eq!(text(&nested[0].1), "{\"id\":2}");
}

#[test]
fn upsert_statement_updates_other_columns() {
    let cols = vec!["id".to_string(), "name".to_string(), "email".to_string()];
    assert_eq!(
        upsert_sql("users", "id", &cols),
        "INSERT INTO users (id, name, email) VALUES (?1, ?2, ?3) ON CONFLICT(id) DO UPDATE SET name = excluded.name, email = excluded.email"
    );
    let only_pk = vec!["id".to_string()];
    assert_eq!(upsert_sql("users", "id", &only_pk), "INSERT INTO users (id) VALUES (?1) ON CONFLICT DO NOTHING");
}

#[test]
fn object_lookup_finds_entries() {
    let e = entries(vec![("a", num(1)), ("b", num(2))]);
    assert_eq!(object_get(&e, "b").map(text), Some("2".to_string()));
    assert!(object_get(&e, "c").is_none());
}

#[test]
fn least_unknown_key_is_reported() {
    let ser = user_serializer();
    let payload = obj(vec![("zeta", num(1)), ("email", s("a")), ("alpha", num(2)), ("name", s("b"))]);
    assert_eq!(error_text(ser.create_values(&payload)), "unknown field: alpha");
}

#[test]
fn objects_keep_their_keys_in_order() {
    let mut e: Vec<(String, JsonValue)> = Vec::new();
    for (k, v) in [("m", 1), ("b", 2), ("z", 3), ("b", 4), ("a", 5)] {
        object_insert(&mut e, k.to_string(), num(v));
    }
    let ks: Vec<&str> = e.iter().map(|(k, _)| k.as_str()).collect();
    assert_eq!(ks, vec!["a", "b", "m", "z"]);
    assert_eq!(object_get(&e, "b").map(text), Some("4".to_string()));
    let merged = merge_with_existing(&entries(vec![("b", num(1))]), &entries(vec![("c", num(2)), ("a", num(3))]));
    let ks: Vec<&str> = merged.iter().map(|(k, _)| k.as_str()).collect();
    assert_eq!(ks, vec!["a", "b", "c"]);
}

#[test]
fn stored_json_field_reads_back_as_its_value() {
    let ser = ModelSerializer::new(vec![Field::json("settings")], user_model());
    let value = obj(vec![
        ("a", JsonValue::Array(vec![num(1), JsonValue::Number(JsonNumber::NegInt(-2)), s("x\"y"), JsonValue::Null])),
        ("b", obj(vec![("c", JsonValue::Bool(true))])),
    ]);
    let stored = validate_object(&obj(vec![("settings", value.copy_value())]), &ser.fields, &ser.model)
        .ok()
        .expect("payload refused");
    assert_eq!(stored.len(), 1);
    assert_eq!(text(&stored[0].1), "\"{\\\"a\\\":[1,-2,\\\"x\\\\\\\"y\\\",null],\\\"b\\\":{\\\"c\\\":true}}\"");
    let back = serialize_json_field(&ser.fields[0], stored[0].1.copy_value());
    assert_eq!(text(&back), text(&value));
}
