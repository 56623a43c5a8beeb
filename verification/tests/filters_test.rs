use che_tauri::filters::{
    json_lookup_matches, parse_bool, parse_u32, parse_value, validate_lookup, Filter, FilterError, FilterSet,
    FilterValue, Lookup, QueryOp,
};
use che_tauri::json::{JsonNumber, JsonValue};
use che_tauri::text::is_f64_text;
use che_tauri::model::{FieldType, ModelField, SqliteValue};

fn user_model() -> Vec<ModelField> {
    vec![
        ModelField::new("id", "id", FieldType::Integer, false, false),
        ModelField::new("email", "email", FieldType::Text, false, false),
        ModelField::new("name", "name", FieldType::Text, false, false),
        ModelField::new("is_active", "is_active", FieldType::Boolean, false, false),
        ModelField::new("score", "score", FieldType::Real, true, false),
    ]
}

fn user_filters() -> FilterSet {
    FilterSet::new(
        vec![
            Filter::exact("id"),
            Filter::gte("id"),
            Filter::contains("name"),
            Filter::exact("is_active"),
            Filter::lt("score"),
        ],
        user_model(),
    )
}

fn params(pairs: &[(&str, &str)]) -> Vec<(String, String)> {
    pairs.iter().map(|(k, v)| (k.to_string(), v.to_string())).collect()
}

#[test]
fn query_names_follow_lookup_suffixes() {
    assert_eq!(Filter::exact("name").query_name(), "name");
    assert_eq!(Filter::contains("name").query_name(), "name__contains");
    assert_eq!(Filter::gt("id").query_name(), "id__gt");
    assert_eq!(Filter::gte("id").query_name(), "id__gte");
    assert_eq!(Filter::lt("id").query_name(), "id__lt");
    assert_eq!(Filter::lte("id").query_name(), "id__lte");
}

#[test]
fn exact_source_filter_reads_another_field() {
    let f = Filter::exact_source("owner", "owner_id");
    assert_eq!(f.name, "owner");
    assert_eq!(f.source, "owner_id");
    assert_eq!(f.lookup, Lookup::Exact);
    assert_eq!(f.query_name(), "owner");
}

#[test]
fn parse_bool_accepts_words_and_digits() {
    assert_eq!(parse_bool("true"), Some(true));
    assert_eq!(parse_bool("1"), Some(true));
    assert_eq!(parse_bool("false"), Some(false));
    assert_eq!(parse_bool("0"), Some(false));
    assert_eq!(parse_bool("yes"), None);
    assert_eq!(parse_bool("TRUE"), None);
}

#[test]
fn parse_u32_refuses_negative_and_text() {
    assert_eq!(parse_u32("limit", "25").ok(), Some(25));
    assert_eq!(parse_u32("limit", "+7").ok(), Some(7));
    assert_eq!(parse_u32("limit", "4294967295").ok(), Some(4294967295));
    match parse_u32("limit", "-1") {
        Err(e) => assert_eq!(e.message(), "invalid filter value for limit, expected positive integer"),
        Ok(_) => panic!("negative limit accepted"),
    }
    assert!(parse_u32("offset", "4294967296").is_err());
    assert!(parse_u32("offset", "").is_err());
    assert!(parse_u32("offset", "ten").is_err());
}

#[test]
fn parse_value_by_field_type() {
    let model = user_model();
    match parse_value(&model[0], "-42") {
        Ok(FilterValue::Value(SqliteValue::I64(-42))) => {}
        _ => panic!("integer value not parsed"),
    }
    match parse_value(&model[1], "a@b.c") {
        Ok(FilterValue::Value(SqliteValue::String(s))) => assert_eq!(s, "a@b.c"),
        _ => panic!("text value not kept"),
    }
    match parse_value(&model[3], "1") {
        Ok(FilterValue::Value(SqliteValue::Bool(true))) => {}
        _ => panic!("boolean value not parsed"),
    }
    match parse_value(&model[4], "2.5") {
        Ok(FilterValue::RealText(t)) => assert_eq!(t, "2.5"),
        _ => panic!("real value not kept as text"),
    }
    match parse_value(&model[0], "4x") {
        Err(e) => assert_eq!(e.message(), "invalid filter value for id, expected integer"),
        Ok(_) => panic!("bad integer accepted"),
    }
    match parse_value(&model[3], "maybe") {
        Err(e) => assert_eq!(e.message(), "invalid filter value for is_active, expected boolean"),
        Ok(_) => panic!("bad boolean accepted"),
    }
}

#[test]
fn lookups_fit_field_types() {
    let model = user_model();
    assert!(validate_lookup(&model[0], Lookup::Exact).is_ok());
    assert!(validate_lookup(&model[0], Lookup::Gte).is_ok());
    assert!(validate_lookup(&model[4], Lookup::Lt).is_ok());
    assert!(validate_lookup(&model[2], Lookup::Contains).is_ok());
    match validate_lookup(&model[0], Lookup::Contains) {
        Err(e) => assert_eq!(e.message(), "invalid lookup for field: id"),
        Ok(_) => panic!("contains on an integer accepted"),
    }
    assert!(validate_lookup(&model[2], Lookup::Gt).is_err());
    assert!(validate_lookup(&model[3], Lookup::Lte).is_err());
}

#[test]
fn apply_builds_operations_in_order() {
    let set = user_filters();
    let ops = match set.apply(&params(&[
        ("name__contains", "Ali"),
        ("ordering", "-id"),
        ("limit", "10"),
        ("offset", "20"),
        ("id__gte", "3"),
    ])) {
        Ok(ops) => ops,
        Err(e) => panic!("refused: {}", e.detail),
    };
    assert_eq!(ops.len(), 5);
    match &ops[0] {
        QueryOp::Where { source, lookup, value: FilterValue::Value(SqliteValue::String(v)) } => {
            assert_eq!(source, "name");
            assert_eq!(*lookup, Lookup::Contains);
            assert_eq!(v, "Ali");
        }
        _ => panic!("contains filter missing"),
    }
    match &ops[1] {
        QueryOp::OrderBy(o) => assert_eq!(o, "-id"),
        _ => panic!("ordering missing"),
    }
    assert!(matches!(ops[2], QueryOp::Limit(10)));
    assert!(matches!(ops[3], QueryOp::Offset(20)));
    match &ops[4] {
        QueryOp::Where { source, lookup: Lookup::Gte, value: FilterValue::Value(SqliteValue::I64(3)) } => {
            assert_eq!(source, "id")
        }
        _ => panic!("gte filter missing"),
    }
}

#[test]
fn apply_refuses_unknown_filter() {
    let set = user_filters();
    match set.apply(&params(&[("email", "x")])) {
        Err(e) => {
            assert_eq!(e.code, "bad_request");
            assert_eq!(e.detail, "unknown filter: email");
        }
        Ok(_) => panic!("unknown filter accepted"),
    }
}

#[test]
fn apply_reports_first_refused_parameter() {
    let set = user_filters();
    match set.apply(&params(&[("limit", "x"), ("nope", "1")])) {
        Err(e) => assert_eq!(e.detail, "invalid filter value for limit, expected positive integer"),
        Ok(_) => panic!("bad limit accepted"),
    }
}

#[test]
fn ordering_needs_a_filter_name() {
    let set = user_filters();
    match set.apply_ordering("email") {
        Err(e) => assert_eq!(e.message(), "unknown ordering field: email"),
        Ok(_) => panic!("ordering by a field without filter accepted"),
    }
    match set.apply_ordering("name") {
        Ok(QueryOp::OrderBy(o)) => assert_eq!(o, "name"),
        _ => panic!("ordering by name refused"),
    }
}

#[test]
fn ordering_uses_the_filter_source() {
    let set = FilterSet::new(
        vec![Filter::exact_source("owner", "owner_id")],
        vec![ModelField::new("owner", "owner_id", FieldType::Integer, false, false)],
    );
    match set.apply_ordering("-owner") {
        Ok(QueryOp::OrderBy(o)) => assert_eq!(o, "-owner_id"),
        _ => panic!("descending ordering refused"),
    }
}

#[test]
fn filter_on_missing_model_field_is_refused() {
    let set = FilterSet::new(vec![Filter::exact("ghost")], user_model());
    match set.apply(&params(&[("ghost", "1")])) {
        Err(e) => assert_eq!(e.detail, "invalid model field: ghost"),
        Ok(_) => panic!("filter on a missing field accepted"),
    }
    match set.apply_ordering("ghost") {
        Err(e) => assert_eq!(e.message(), "invalid model field: ghost"),
        Ok(_) => panic!("ordering on a missing field accepted"),
    }
}

#[test]
fn filter_error_messages() {
    assert_eq!(FilterError::UnknownFilter("a".to_string()).message(), "unknown filter: a");
    assert_eq!(FilterError::UnknownOrdering("b".to_string()).message(), "unknown ordering field: b");
    assert_eq!(FilterError::InvalidLookup("c".to_string()).message(), "invalid lookup for field: c");
    assert_eq!(FilterError::InvalidModelField("d".to_string()).message(), "invalid model field: d");
}

#[test]
fn remote_helpers_set_where_a_filter_applies() {
    let f = Filter::contains("name").remote("search");
    assert_eq!(f.remote_name.as_deref(), Some("search"));
    assert!(f.local && f.forward && !f.after_remote);
    let f = Filter::remote_only("team");
    assert_eq!(f.lookup, Lookup::Exact);
    assert!(!f.local && f.forward);
    let f = Filter::exact("id").local_only();
    assert!(f.local && !f.forward && f.after_remote);
    let f = Filter::exact("id").remote_disabled();
    assert!(f.local && !f.forward && !f.after_remote);
    let plain = Filter::exact("id");
    assert!(plain.remote_name.is_none() && plain.local && plain.forward && !plain.after_remote);
}

#[test]
fn remote_parameters_follow_the_filters() {
    let set = FilterSet::new(
        vec![Filter::gte("id").remote("min_id"), Filter::exact("name").remote_disabled(), Filter::remote_only("q")],
        user_model(),
    );
    let forwarded = set.remote_params(&params(&[("id__gte", "3"), ("name", "x"), ("q", "al"), ("ordering", "id"), ("other", "1")]));
    assert_eq!(forwarded, params(&[("min_id", "3"), ("q", "al"), ("ordering", "id"), ("other", "1")]));
    let set = set.remote_ordering("order");
    let forwarded = set.remote_params(&params(&[("ordering", "-id"), ("offset", "10")]));
    assert_eq!(forwarded, params(&[("order", "-id"), ("offset", "10")]));
}

#[test]
fn remote_only_parameters_are_skipped_locally() {
    let set = FilterSet::new(vec![Filter::remote_only("q"), Filter::exact("id")], user_model());
    match set.apply(&params(&[("q", "anything"), ("id", "2")])) {
        Ok(ops) => {
            assert_eq!(ops.len(), 1);
            assert!(matches!(&ops[0], QueryOp::Where { lookup: Lookup::Exact, .. }));
        }
        Err(e) => panic!("refused: {}", e.detail),
    }
}

fn item(pairs: Vec<(&str, JsonValue)>) -> JsonValue {
    JsonValue::Object(pairs.into_iter().map(|(k, v)| (k.to_string(), v)).collect())
}

#[test]
fn local_only_filters_keep_matching_items() {
    let set = FilterSet::new(
        vec![
            Filter::contains("name").local_only(),
            Filter::gt("id").local_only(),
            Filter::exact("is_active").local_only(),
            Filter::exact("email"),
        ],
        user_model(),
    );
    let a = item(vec![
        ("id", JsonValue::Number(JsonNumber::PosInt(5))),
        ("name", JsonValue::String("Alice".to_string())),
        ("is_active", JsonValue::Bool(true)),
    ]);
    let b = item(vec![
        ("id", JsonValue::Number(JsonNumber::PosInt(2))),
        ("name", JsonValue::String("Alina".to_string())),
        ("is_active", JsonValue::Bool(false)),
    ]);
    assert!(set.keeps(&params(&[("name__contains", "li")]), &a));
    assert!(!set.keeps(&params(&[("name__contains", "bob")]), &a));
    assert!(set.keeps(&params(&[("id__gt", "4"), ("is_active", "1")]), &a));
    assert!(!set.keeps(&params(&[("id__gt", "4")]), &b));
    assert!(!set.keeps(&params(&[("id__gt", "x")]), &a));
    assert!(set.keeps(&params(&[("email", "nobody"), ("limit", "1")]), &a));
    assert!(!set.keeps(&params(&[("is_active", "true")]), &JsonValue::Null));
    let kept = set.keep_after_remote(&params(&[("is_active", "false")]), vec![a, b]);
    assert_eq!(kept.len(), 1);
    assert!(matches!(&kept[0], JsonValue::Object(e) if matches!(e[0].1, JsonValue::Number(JsonNumber::PosInt(2)))));
}

#[test]
fn json_values_meet_lookups() {
    let n = JsonValue::Number(JsonNumber::NegInt(-4));
    assert!(json_lookup_matches(Lookup::Exact, &n, "-4"));
    assert!(json_lookup_matches(Lookup::Lt, &n, "0"));
    assert!(json_lookup_matches(Lookup::Lte, &n, "-4"));
    assert!(!json_lookup_matches(Lookup::Gte, &n, "-3"));
    assert!(!json_lookup_matches(Lookup::Contains, &n, "4"));
    let f = JsonValue::Number(JsonNumber::Float("2.5".to_string()));
    assert!(json_lookup_matches(Lookup::Exact, &f, "2.5"));
    assert!(!json_lookup_matches(Lookup::Gt, &f, "1"));
    let t = JsonValue::String("hello".to_string());
    assert!(json_lookup_matches(Lookup::Contains, &t, "ell"));
    assert!(json_lookup_matches(Lookup::Contains, &t, ""));
    assert!(!json_lookup_matches(Lookup::Contains, &t, "Hell"));
    assert!(json_lookup_matches(Lookup::Exact, &JsonValue::Bool(false), "0"));
    assert!(!json_lookup_matches(Lookup::Exact, &JsonValue::Null, "null"));
}

#[test]
fn real_filter_values_must_be_numbers() {
    let model = user_model();
    for ok in ["2.5", "-1", "+.5", "7.", "1e10", "1E-3", "inf", "-Infinity", "NaN"] {
        match parse_value(&model[4], ok) {
            Ok(FilterValue::RealText(t)) => assert_eq!(t, ok),
            _ => panic!("number refused: {ok}"),
        }
    }
    for bad in ["abc", "", ".", "1e", "1.2.3", " 1", "--1", "e5", "infin", "0x10"] {
        match parse_value(&model[4], bad) {
            Err(e) => assert_eq!(e.message(), "invalid filter value for score, expected number"),
            Ok(_) => panic!("text accepted as a number: {bad}"),
        }
    }
    let set = FilterSet::new(vec![Filter::lt("score")], user_model());
    match set.apply(&params(&[("score__lt", "abc")])) {
        Err(e) => {
            assert_eq!(e.code, "bad_request");
            assert_eq!(e.detail, "invalid filter value for score, expected number");
        }
        Ok(_) => panic!("bad number accepted"),
    }
}

#[test]
fn float_text_agrees_with_std() {
    for t in [
        "0", "1.5", "-2", "+3.", ".25", "1e5", "1E+5", "2.5e-3", "inf", "INF", "+infinity", "nan", "-NaN", "abc", "",
        ".", "-", "e", "1e", "1e+", "1..2", "1.2.3", " 1", "1 ", "++1", "infinit", "nanx", "1_000", "٣",
    ] {
        assert_eq!(is_f64_text(t), t.parse::<f64>().is_ok(), "{t}");
    }
}
