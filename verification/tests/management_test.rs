use che_tauri::management::{
    api_client_ts, api_ts, app_migrations_dir, camel_case, file_extension, filters_template, lower_first,
    migration_file_name, migration_sql, mod_template, new_statements, models_template, models_ts, next_migration_number, optional_marker,
    plural_camel, response_ts_type, serializers_template, singular_camel, singular_name, slugify, sort_endpoints,
    to_ascii_uppercase, ts_type, update_mod_content, validate_app_name, API_CLIENT_TS,
};
use che_tauri::model::FieldType;
use che_tauri::text::text_le;
use che_tauri::module::{ApiEndpoint, ApiField, ApiFilter};

fn field(name: &str, ty: FieldType) -> ApiField {
    ApiField {
        name: name.to_string(),
        source: name.to_string(),
        ty,
        related_model: None,
        ts_type: None,
        input_ts_type: None,
        read_only: false,
        write_only: false,
        required: true,
        nullable: false,
        has_default: false,
    }
}

fn user_endpoint() -> ApiEndpoint {
    let mut id = field("id", FieldType::Integer);
    id.read_only = true;
    let mut password = field("password", FieldType::Text);
    password.write_only = true;
    let mut bio = field("bio", FieldType::Text);
    bio.nullable = true;
    bio.required = false;
    ApiEndpoint {
        model_name: "User".to_string(),
        resource: "users".to_string(),
        fields: vec![id, field("name", FieldType::Text), bio, password],
        filters: vec![ApiFilter {
            name: "name__contains".to_string(),
            source: "name".to_string(),
            ty: FieldType::Text,
            nullable: false,
        }],
    }
}

fn endpoint(model: &str, resource: &str) -> ApiEndpoint {
    ApiEndpoint { model_name: model.to_string(), resource: resource.to_string(), fields: vec![], filters: vec![] }
}

#[test]
fn ts_types_of_columns() {
    assert_eq!(ts_type(FieldType::Integer, false), "number");
    assert_eq!(ts_type(FieldType::Real, true), "number | null");
    assert_eq!(ts_type(FieldType::Text, false), "string");
    assert_eq!(ts_type(FieldType::Boolean, true), "boolean | null");
    let mut team = field("team", FieldType::Integer);
    team.related_model = Some("Team".to_string());
    assert_eq!(response_ts_type(&team), "Team");
    team.nullable = true;
    assert_eq!(response_ts_type(&team), "Team | null");
    assert_eq!(response_ts_type(&field("n", FieldType::Text)), "string");
}

#[test]
fn create_fields_are_optional_unless_required_without_default() {
    let mut f = field("name", FieldType::Text);
    assert_eq!(optional_marker(&f), "");
    f.has_default = true;
    assert_eq!(optional_marker(&f), "?");
    f.has_default = false;
    f.required = false;
    assert_eq!(optional_marker(&f), "?");
}

#[test]
fn models_ts_lists_the_interfaces() {
    let expected = "import type { ListParams } from \"./api_client\";\n\n\
export interface User {\n  id: number;\n  name: string;\n  bio: string | null;\n}\n\n\
export interface UserCreate {\n  name: string;\n  bio?: string | null;\n  password: string;\n}\n\n\
export interface UserUpdate {\n  name?: string;\n  bio?: string | null;\n  password?: string;\n}\n\n\
export interface UserListParams extends ListParams {\n  name__contains?: string;\n}\n\n";
    assert_eq!(models_ts(&vec![user_endpoint()]), expected);
    assert_eq!(models_ts(&vec![]), "import type { ListParams } from \"./api_client\";\n\n");
}

#[test]
fn api_ts_creates_one_client_per_endpoint() {
    assert_eq!(api_ts(&vec![]), "import { createModelApi } from \"./api_client\";\n\n");
    let expected = "import { createModelApi } from \"./api_client\";\n\
import type {\n  User,\n  UserCreate,\n  UserUpdate,\n  UserListParams,\n} from \"./models\";\n\n\
export const userApi = createModelApi<User, UserCreate, UserUpdate, UserListParams>(\"users\");\n";
    assert_eq!(api_ts(&vec![user_endpoint()]), expected);
}

#[test]
fn api_client_template_is_fixed() {
    assert_eq!(api_client_ts(), API_CLIENT_TS);
    assert!(api_client_ts().starts_with("import { invoke } from \"@tauri-apps/api/core\";"));
    assert!(api_client_ts().contains("export function createModelApi<"));
}

#[test]
fn lower_first_lowers_one_letter() {
    assert_eq!(lower_first("UserProfile"), "userProfile");
    assert_eq!(lower_first(""), "");
    assert_eq!(lower_first("x"), "x");
}

#[test]
fn names_of_generated_items() {
    assert_eq!(camel_case("user_profiles"), "UserProfiles");
    assert_eq!(camel_case("__a__b_"), "AB");
    assert_eq!(camel_case("x2y"), "X2y");
    assert_eq!(singular_name("categories"), "category");
    assert_eq!(singular_name("address"), "address");
    assert_eq!(singular_name("users"), "user");
    assert_eq!(singular_name("staff"), "staff");
    assert_eq!(singular_camel("blog_posts"), "BlogPost");
    assert_eq!(plural_camel("blog_posts"), "BlogPosts");
    assert_eq!(to_ascii_uppercase("blog_posts2"), "BLOG_POSTS2");
}

#[test]
fn slugs_of_migration_names() {
    assert_eq!(slugify("add_profile_fields"), "add_profile_fields");
    assert_eq!(slugify("Add Profile-Fields!"), "add_profile_fields");
    assert_eq!(slugify("  __x  "), "x");
    assert_eq!(slugify("***"), "auto");
    assert_eq!(slugify(""), "auto");
    assert_eq!(slugify("Ünïcode 2"), "n_code_2");
}

#[test]
fn app_names_are_checked() {
    assert!(validate_app_name("users").is_ok());
    assert!(validate_app_name("blog_posts2").is_ok());
    assert_eq!(validate_app_name("").err().as_deref(), Some("app name cannot be empty"));
    assert_eq!(
        validate_app_name("Users").err().as_deref(),
        Some("app name must start with a lowercase ascii letter")
    );
    assert_eq!(
        validate_app_name("_users").err().as_deref(),
        Some("app name must start with a lowercase ascii letter")
    );
    assert_eq!(
        validate_app_name("user-s").err().as_deref(),
        Some("app name must contain only lowercase ascii letters, digits, and underscores")
    );
}

#[test]
fn migration_files_are_numbered() {
    assert_eq!(migration_file_name(1, "add_profile_fields"), "0001_add_profile_fields.sql");
    assert_eq!(migration_file_name(12345, "auto"), "12345_auto.sql");
    assert_eq!(migration_file_name(7, "Initial Schema"), "0007_initial_schema.sql");
    let files: Vec<String> =
        vec!["0001_initial.sql", "0003_more.sql", "0002_x.sql", "schema.json", "0009_notes.txt", "abcd.sql"]
            .into_iter()
            .map(String::from)
            .collect();
    assert_eq!(next_migration_number(&files), 4);
    assert_eq!(next_migration_number(&vec![]), 1);
    let plus = vec!["+012_x.sql".to_string()];
    assert_eq!(next_migration_number(&plus), 13);
    let short = vec!["1.sql".to_string(), "é001.sql".to_string()];
    assert_eq!(next_migration_number(&short), 1);
}

#[test]
fn new_migration_number_exceeds_every_existing_one() {
    let files: Vec<String> = vec!["0042_a.sql", "9999_b.sql", "0100_c.sql"].into_iter().map(String::from).collect();
    let next = next_migration_number(&files);
    assert_eq!(next, 10000);
    assert!(files.iter().all(|f| f[..4].parse::<u32>().unwrap() < next));
}

#[test]
fn file_extensions_follow_path_rules() {
    assert_eq!(file_extension("0001_a.sql").as_deref(), Some("sql"));
    assert_eq!(file_extension("a.tar.gz").as_deref(), Some("gz"));
    assert_eq!(file_extension(".sql"), None);
    assert_eq!(file_extension("README"), None);
    assert_eq!(file_extension(".."), None);
    assert_eq!(file_extension("x."), Some(String::new()));
}

#[test]
fn migrations_live_in_the_app() {
    assert_eq!(app_migrations_dir("src/apps", "users"), "src/apps/users/migrations");
    assert_eq!(app_migrations_dir("src/apps/", "users"), "src/apps/users/migrations");
    assert_eq!(app_migrations_dir("", "users"), "users/migrations");
}

#[test]
fn app_templates_name_the_model() {
    let m = mod_template("blog_posts");
    assert!(m.starts_with("pub mod filters;\npub mod models;\npub mod serializers;\n\n"));
    assert!(m.contains("pub fn module() -> BlogPostsModule {\n    BlogPostsModule\n}\n"));
    assert!(m.contains("impl AppModule for BlogPostsModule {"));
    assert!(m.contains("        \"blog_posts\"\n"));
    assert!(m.contains("ctx.resource::<models::BlogPost>(\n            \"blog_posts\",\n            serializers::blog_post_serializer(),\n            filters::blog_post_filterset(),\n        );"));
    assert_eq!(
        models_template("users"),
        "use che_orm::Model;\n\n#[derive(Debug, Clone, Model)]\n#[model(table = \"users\")]\npub struct User {\n    #[field(primary_key)]\n    pub id: i64,\n\n    pub name: String,\n}\n"
    );
    let s = serializers_template("users");
    assert!(s.contains("static USERS_FIELDS: &[Field] = &[\n    Field::new(\"id\").read_only(),\n    Field::new(\"name\"),\n];"));
    assert!(s.contains("pub fn user_serializer() -> ModelSerializer<User> {\n    ModelSerializer::new(USERS_FIELDS)\n}\n"));
    let f = filters_template("users");
    assert!(f.contains("static USERS_FILTERS: &[Filter] = &[\n    Filter::exact(\"name\"),\n    Filter::contains(\"name\"),\n];"));
    assert!(f.contains("pub fn user_filterset() -> FilterSet<User> {\n    FilterSet::new(USERS_FILTERS)\n}\n"));
}

#[test]
fn apps_mod_gets_one_line_per_app() {
    assert_eq!(update_mod_content("", "users").as_deref(), Some("pub mod users;\n"));
    assert_eq!(update_mod_content("pub mod a;", "users").as_deref(), Some("pub mod a;\npub mod users;\n"));
    assert_eq!(update_mod_content("pub mod a;\n", "users").as_deref(), Some("pub mod a;\npub mod users;\n"));
    assert_eq!(update_mod_content("pub mod a;\n  pub mod users;  \n", "users"), None);
    assert_eq!(update_mod_content("pub mod users_x;\n", "users").as_deref(), Some("pub mod users_x;\npub mod users;\n"));
}

#[test]
fn endpoints_sort_by_model_name_keeping_ties() {
    let sorted = sort_endpoints(vec![
        endpoint("User", "users"),
        endpoint("Post", "posts"),
        endpoint("User", "staff"),
        endpoint("Comment", "comments"),
    ]);
    let names: Vec<(&str, &str)> = sorted.iter().map(|e| (e.model_name.as_str(), e.resource.as_str())).collect();
    assert_eq!(names, vec![("Comment", "comments"), ("Post", "posts"), ("User", "users"), ("User", "staff")]);
    assert!(text_le("Post", "User"));
    assert!(text_le("User", "User"));
    assert!(!text_le("Users", "User"));
    assert!(text_le("Z", "a"));
}

#[test]
fn apps_mod_update_twice_adds_once() {
    for content in ["", "pub mod a;", "pub mod a;\n\n", "// apps\npub mod b;\r\n"] {
        let once = update_mod_content(content, "blog").expect("first update refused");
        assert_eq!(once.matches("pub mod blog;").count(), 1);
        assert_eq!(update_mod_content(&once, "blog"), None);
    }
}

#[test]
fn slugs_are_file_safe() {
    for name in ["add_profile_fields", "  Hello,  World!! ", "__", "Ä", "a--b__c", "X"] {
        let slug = slugify(name);
        assert!(!slug.is_empty());
        assert!(slug.chars().all(|c| c.is_ascii_lowercase() || c.is_ascii_digit() || c == '_'));
        assert!(!slug.starts_with('_') && !slug.ends_with('_'));
        assert!(!slug.contains("__"));
    }
    assert_eq!(slugify("a--b__c"), "a_b_c");
    assert_eq!(slugify("  Hello,  World!! "), "hello_world");
}

#[test]
fn slug_falls_back_only_without_letters_or_digits() {
    assert_eq!(slugify("--"), "auto");
    assert_eq!(slugify("Ünï"), "n");
    assert_eq!(slugify("é"), "auto");
    assert_eq!(slugify("auto"), "auto");
    assert_eq!(slugify("Add Profile-Fields!"), "add_profile_fields");
}

#[test]
fn slugify_twice_changes_nothing() {
    for name in ["Add Profile-Fields!", "--", "__a__", "X9 y", "auto", "ÄÖ"] {
        let once = slugify(name);
        assert_eq!(slugify(&once), once);
    }
}

#[test]
fn migrations_hold_the_new_statements() {
    let old = vec!["CREATE TABLE a (id INTEGER);".to_string()];
    let new = vec![
        "CREATE TABLE a (id INTEGER);".to_string(),
        "CREATE TABLE b (id INTEGER)".to_string(),
        "CREATE TABLE c (id INTEGER);;".to_string(),
    ];
    let changes = new_statements(&old, &new);
    assert_eq!(changes, vec!["CREATE TABLE b (id INTEGER)".to_string(), "CREATE TABLE c (id INTEGER);;".to_string()]);
    assert_eq!(migration_sql(&changes), "CREATE TABLE b (id INTEGER);\nCREATE TABLE c (id INTEGER);");
    assert!(new_statements(&new, &new).is_empty());
    assert_eq!(migration_sql(&vec![]), "");
}
