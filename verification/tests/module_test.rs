use che_tauri::filters::{Filter, FilterSet};
use che_tauri::json::JsonValue;
use che_tauri::model::{find_column, find_model_field, FieldType, ModelField};
use che_tauri::module::{api_fields, api_filters, find_module, rust_type_name, AppModule, ModelInfo, ModuleContext};
use che_tauri::serializer::{Field, ModelSerializer};

fn model() -> Vec<ModelField> {
    vec![
        ModelField::new("id", "id", FieldType::Integer, false, false),
        ModelField::new("name", "name", FieldType::Text, false, true),
        ModelField::new("team", "team_id", FieldType::Integer, true, false),
    ]
}

fn info(name: &str) -> ModelInfo {
    ModelInfo {
        model_name: name.to_string(),
        table_name: format!("{}s", name.to_lowercase()),
        primary_key: Some("id".to_string()),
        create_table_sql: format!("CREATE TABLE {name}s (id INTEGER)"),
    }
}

fn serializer() -> ModelSerializer {
    ModelSerializer::new(
        vec![
            Field::new("id").read_only(),
            Field::new("name"),
            Field::related("team", "team_id", "Team"),
            Field::new("nickname"),
        ],
        model(),
    )
}

fn filterset() -> FilterSet {
    FilterSet::new(vec![Filter::exact("id"), Filter::contains("name"), Filter::exact("ghost")], model())
}

struct UsersModule;

impl AppModule for UsersModule {
    fn name(&self) -> &'static str {
        "users"
    }

    fn init(&self, ctx: &mut ModuleContext) {
        ctx.resource(info("User"), "users", serializer(), filterset());
    }
}

#[test]
fn model_fields_are_found_by_either_name() {
    let m = model();
    assert_eq!(find_model_field(&m, "team").map(|f| f.db_name.as_str()), Some("team_id"));
    assert_eq!(find_model_field(&m, "team_id").map(|f| f.rust_name.as_str()), Some("team"));
    assert!(find_model_field(&m, "owner").is_none());
    assert!(find_column(&m, "team").is_none());
    assert!(find_column(&m, "team_id").is_some());
}

#[test]
fn generated_fields_keep_model_columns_only() {
    let fields = api_fields(&serializer().fields, &model());
    let names: Vec<&str> = fields.iter().map(|f| f.name.as_str()).collect();
    assert_eq!(names, vec!["id", "name", "team"]);
    assert!(fields[0].read_only && !fields[0].required);
    assert_eq!(fields[1].ty, FieldType::Text);
    assert!(fields[1].has_default);
    assert_eq!(fields[2].related_model.as_deref(), Some("Team"));
    assert!(fields[2].nullable);
    assert_eq!(fields[2].source, "team_id");
    let with_default = api_fields(&vec![Field::new("id").default(JsonValue::Null)], &model());
    assert!(with_default[0].has_default);
}

#[test]
fn generated_filters_use_query_names() {
    let filters = api_filters(&filterset().filters, &model());
    assert_eq!(filters.len(), 2);
    assert_eq!(filters[0].name, "id");
    assert_eq!(filters[1].name, "name__contains");
    assert_eq!(filters[1].ty, FieldType::Text);
    assert!(!filters[1].nullable);
}

#[test]
fn local_resources_create_tables_remote_ones_do_not() {
    let mut ctx = ModuleContext::new();
    ctx.resource(info("User"), "users", serializer(), filterset());
    ctx.raw_remote_resource(info("Post"), "posts", "/api/posts/", serializer(), filterset());
    ctx.mapped_remote_resource(info("Tag"), "tags", "/api/tags/", serializer(), filterset());
    ctx.remote_resource(info("Note"), "notes", "/api/notes/", serializer(), filterset());
    ctx.cached_mapped_remote_resource(info("Team"), "teams", "/api/teams/", serializer(), filterset());
    ctx.create_table(info("Log"));
    let schemas: Vec<&str> = ctx.model_schemas().iter().map(|m| m.model_name.as_str()).collect();
    assert_eq!(schemas, vec!["User", "Team", "Log"]);
    let endpoints: Vec<(&str, &str)> =
        ctx.api_endpoints().iter().map(|e| (e.model_name.as_str(), e.resource.as_str())).collect();
    assert_eq!(
        endpoints,
        vec![("User", "users"), ("Post", "posts"), ("Tag", "tags"), ("Note", "notes"), ("Team", "teams")]
    );
    assert_eq!(ctx.api_endpoints()[0].fields.len(), 3);
    assert_eq!(ctx.api_endpoints()[0].filters.len(), 2);
    let (sql, resources) = ctx.into_parts();
    assert_eq!(sql, vec!["CREATE TABLE Users (id INTEGER)", "CREATE TABLE Teams (id INTEGER)", "CREATE TABLE Logs (id INTEGER)"]);
    let names: Vec<&str> = resources.iter().map(|r| r.resource.as_str()).collect();
    assert_eq!(names, vec!["users", "posts", "tags", "notes", "teams"]);
}

#[test]
fn modules_register_on_a_context() {
    let module = UsersModule;
    let mut ctx = ModuleContext::new();
    module.init(&mut ctx);
    assert_eq!(ctx.api_endpoints().len(), 1);
    assert_eq!(module.name(), "users");
}

#[test]
fn installed_modules_are_found_by_name() {
    let names = vec!["users", "posts", "users"];
    assert_eq!(find_module(&names, "users"), Some(0));
    assert_eq!(find_module(&names, "posts"), Some(1));
    assert_eq!(find_module(&names, "tags"), None);
    assert_eq!(find_module(&vec![], "users"), None);
}

#[test]
fn model_names_drop_the_module_path() {
    assert_eq!(rust_type_name("my_app::apps::users::models::User"), "User");
    assert_eq!(rust_type_name("User"), "User");
    assert_eq!(rust_type_name("a::"), "");
    assert_eq!(rust_type_name("a:b"), "a:b");
}
