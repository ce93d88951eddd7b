use job_service::generator::{
    field_from_choice, is_reserved_field_name, generate_assert_create_fields_json, generate_assert_update_fields_json,
    generate_controller_filter_fields, generate_controller_search_fields, generate_create_payload_json,
    generate_fields_create, generate_fields_model, generate_fields_response, generate_fields_update,
    generate_migration_fields_sql, generate_response_from_model_mappings,
    generate_service_create_fields_mappings, generate_service_list_filter_definitions,
    generate_service_list_order_definitions, generate_service_list_search_definitions,
    generate_service_update_fields_mappings, generate_update_payload_json, join, parse_fields,
    to_camel_case, to_pascal_case, Field,
};
use job_service::scaffold::{
    answer_or_default, apply_template, crud_file_targets, default_feature_description, migration_name,
    module_dir, next_test_index, register_migration_in_migrator, register_model, register_module,
    register_observability, register_rbac_feature, register_table_truncate, register_test_execution,
    register_test_module, should_register_rbac, test_module_name,
};
use job_service::storage_scaffold::{
    add_dependencies, provider_from_menu, provider_plan, register_provider_in_mod, update_env_lines,
    CloudProvider,
};
use job_service::text::is_whitespace;
use job_service::text_edit::{last_index_of, lines, replace};

fn args(items: &[&str]) -> Vec<String> {
    items.iter().map(|s| s.to_string()).collect()
}

fn sample_fields() -> Vec<Field> {
    parse_fields(&args(&["name:string", "price:decimal:required", "due:date", "bio:text", "done:bool:notnull"]))
}

#[test]
fn parse_fields_maps_types_and_skips_core_columns() {
    let fields = parse_fields(&args(&[
        "name:string",
        "price:decimal:Required",
        "id:int",
        "bad",
        "bio:text",
        "Active:bool",
        "qty:INT:optional",
        "ratio:float",
        "when:date:notnull",
    ]));
    let names: Vec<&str> = fields.iter().map(|f| f.name.as_str()).collect();
    assert_eq!(names, vec!["name", "price", "bio", "qty", "ratio", "when"]);
    assert_eq!(fields[0].rust_type, "Option<String>");
    assert!(fields[0].is_nullable && !fields[0].is_text);
    assert_eq!(fields[1].rust_type, "Decimal");
    assert!(!fields[1].is_nullable);
    assert_eq!(fields[2].rust_type, "Option<String>");
    assert!(fields[2].is_text);
    assert_eq!(fields[3].rust_type, "Option<i32>");
    assert_eq!(fields[4].rust_type, "Option<f64>");
    assert_eq!(fields[5].rust_type, "DateTimeWithTimeZone");
    assert_eq!(fields[0].base_type(), "String");
    assert_eq!(fields[5].base_type(), "DateTimeWithTimeZone");
}

#[test]
fn field_from_menu_choice() {
    let f = field_from_choice("score".to_string(), 2, 1).unwrap();
    assert_eq!(f.rust_type, "i32");
    assert!(!f.is_nullable);
    let t = field_from_choice("notes".to_string(), 1, 0).unwrap();
    assert_eq!(t.rust_type, "Option<String>");
    assert!(t.is_text);
    assert!(field_from_choice("Created_At".to_string(), 0, 0).is_none());
}

#[test]
fn case_conversions() {
    assert_eq!(to_pascal_case("created_at"), "CreatedAt");
    assert_eq!(to_camel_case("created_at"), "createdAt");
    assert_eq!(to_pascal_case("a__b"), "AB");
    assert_eq!(to_pascal_case(""), "");
    assert_eq!(to_camel_case(""), "");
    assert_eq!(to_camel_case("_x"), "x");
    assert_eq!(to_pascal_case("ßeta"), "SSeta");
}

#[test]
fn struct_field_texts() {
    let f = parse_fields(&args(&["name:string", "price:decimal:required"]));
    assert_eq!(generate_fields_create(&f), "    pub name: Option<String>,\n    pub price: Decimal,\n");
    assert_eq!(
        generate_fields_update(&f),
        "    pub name: Option<String>,\n    pub price: Decimal,\n    pub active: Option<bool>,\n"
    );
    assert_eq!(
        generate_fields_response(&f),
        "    pub id: String,\n    pub name: Option<String>,\n    pub price: Decimal,\n    pub active: bool,\n    pub created_at: String,\n    pub updated_at: String,\n"
    );
    let model = generate_fields_model(&f);
    assert!(model.starts_with("    #[sea_orm(primary_key, auto_increment = false)]\n    pub id: String,\n    pub name: Option<String>,\n"));
    assert!(model.ends_with("    pub deleted_at: Option<DateTimeWithTimeZone>,\n"));
}

#[test]
fn mapping_texts() {
    let f = parse_fields(&args(&["name:string"]));
    assert_eq!(
        generate_response_from_model_mappings(&f),
        "            id: p.id,\n            name: p.name,\n            active: p.active,\n            created_at: p.created_at.to_rfc3339(),\n            updated_at: p.updated_at.to_rfc3339(),\n"
    );
    assert_eq!(generate_service_create_fields_mappings(&f), "            name: Set(payload.name),\n");
    assert_eq!(generate_service_update_fields_mappings(&f), "        active_item.name = Set(payload.name);\n");
}

#[test]
fn list_definition_texts() {
    let f = sample_fields();
    assert_eq!(
        generate_service_list_filter_definitions(&f, "thing"),
        "            FilterDefinition::contains(\"name\", (Entity, Column::Name)),\n\
         \x20           FilterDefinition::equals(\"price\", (Entity, Column::Price)),\n\
         \x20           FilterDefinition::contains(\"bio\", (Entity, Column::Bio)),\n\
         \x20           FilterDefinition::boolean(\"done\", (Entity, Column::Done)),\n\
         \x20       filter_defs.extend(FilterDefinition::date_range(\"due\", (Entity, Column::Due)));\n"
    );
    assert_eq!(
        generate_service_list_search_definitions(&f, "thing"),
        "        SearchDefinition::contains(\"name\", (Entity, Column::Name)),\n        SearchDefinition::contains(\"bio\", (Entity, Column::Bio)),\n"
    );
    let order = generate_service_list_order_definitions(&f, "thing");
    assert!(order.starts_with("        OrderDefinition::case_insensitive(\"name\", (Entity, Column::Name)),\n        OrderDefinition::column(\"price\", (Entity, Column::Price)),\n"));
}

#[test]
fn controller_field_lists() {
    let f = sample_fields();
    assert_eq!(generate_controller_search_fields(&f), "\"name\", \"bio\"");
    assert_eq!(
        generate_controller_filter_fields(&f),
        "\"name\", \"price\", \"due\", \"bio\", \"done\", \"active\", \"createdAt\", \"updatedAt\""
    );
    assert_eq!(generate_controller_search_fields(&[]), "");
}

#[test]
fn payload_texts() {
    let f = parse_fields(&args(&["name:string", "price:decimal"]));
    assert_eq!(
        generate_create_payload_json(&f),
        "{\n        \"name\": \"name Test\",\n        \"price\": 10.5\n    }"
    );
    assert_eq!(
        generate_update_payload_json(&f),
        "{\n        \"name\": \"name Updated\",\n        \"price\": 20.5,\n        \"active\": false\n    }"
    );
    assert_eq!(generate_create_payload_json(&[]), "{\n\n    }");
}

#[test]
fn assertion_texts() {
    let f = parse_fields(&args(&["name:string", "qty:int", "ok:bool"]));
    assert_eq!(
        generate_assert_create_fields_json(&f),
        "    assert_eq!(body[\"name\"].as_str().unwrap(), \"name Test\");\n    assert_eq!(body[\"qty\"].as_i64().unwrap(), 1);\n    assert_eq!(body[\"ok\"].as_bool().unwrap(), true);"
    );
    assert_eq!(
        generate_assert_update_fields_json(&f),
        "    assert_eq!(body[\"name\"].as_str().unwrap(), \"name Updated\");\n    assert_eq!(body[\"qty\"].as_i64().unwrap(), 2);\n    assert_eq!(body[\"ok\"].as_bool().unwrap(), false);"
    );
    let odd = vec![Field { name: "x".into(), rust_type: "Vec<u8>".into(), is_text: false, is_nullable: false }];
    assert_eq!(generate_assert_create_fields_json(&odd), "");
}

#[test]
fn migration_sql_text() {
    let f = parse_fields(&args(&["name:string", "price:decimal:required", "description:string", "bio:text", "due:date"]));
    assert_eq!(
        generate_migration_fields_sql(&f),
        "                name VARCHAR(255),\n\
         \x20               price NUMERIC(10, 2) NOT NULL,\n\
         \x20               description TEXT,\n\
         \x20               bio TEXT,\n\
         \x20               due TIMESTAMP WITH TIME ZONE,\n"
    );
}

#[test]
fn join_texts() {
    assert_eq!(join(&vec!["a".to_string(), "b".to_string(), "c".to_string()], ", "), "a, b, c");
    assert_eq!(join(&vec![], ", "), "");
}

#[test]
fn prompt_answers() {
    assert!(should_register_rbac(""));
    assert!(should_register_rbac(" S \n"));
    assert!(should_register_rbac("Sim"));
    assert!(!should_register_rbac("n"));
    assert_eq!(answer_or_default("  x \n", "d"), "x");
    assert_eq!(answer_or_default(" \n", "d"), "d");
    assert_eq!(default_feature_description("Customer"), "Gestão de Customer");
}

#[test]
fn generated_names() {
    assert_eq!(migration_name("20260101_120000", "customer"), "m20260101_120000_create_customer_table");
    assert_eq!(test_module_name(7, "customer"), "t07_customer");
    assert_eq!(test_module_name(17, "customer"), "t17_customer");
    assert_eq!(module_dir("customer"), "src/modules/customer");
    let targets = crud_file_targets("customer", "m1", "t18_customer");
    assert_eq!(targets.len(), 8);
    assert_eq!(targets[0], ("templates/crud/model.rs.tpl".to_string(), "src/models/customer.rs".to_string()));
    assert_eq!(targets[7].1, "tests/compliance/t18_customer.rs");
}

#[test]
fn next_test_index_from_names() {
    assert_eq!(next_test_index(&vec![]), 17);
    let names = args(&["t17_product.rs", "t03_x.rs", "mod.rs", "t9.rs", "t2_a.rs"]);
    assert_eq!(next_test_index(&names), 18);
    assert_eq!(next_test_index(&args(&["t42_big.rs", "t05_y.rs"])), 43);
}

#[test]
fn register_model_once() {
    let first = register_model("pub mod a;\n", "b").unwrap();
    assert_eq!(first, "pub mod a;\npub mod b;\n");
    assert!(register_model(&first, "b").is_none());
    assert_eq!(register_test_module("", "t18_c").unwrap(), "pub mod t18_c;\n");
}

#[test]
fn register_module_merges_router() {
    let content = "pub mod a;\n\npub fn app_router() {\n    Router::new()\n}\n";
    let out = register_module(content, "b").unwrap();
    assert_eq!(
        out,
        "pub mod b;\npub mod a;\n\npub fn app_router() {\n    Router::new()\n        .merge(b::router(db.clone(), cache.clone(), config.clone()))\n}"
    );
    assert!(register_module(&out, "b").is_none());
}

#[test]
fn register_test_execution_after_last_run() {
    let content = "async fn all() {\n    compliance::t01_a::run(&ctx).await;\n    compliance::t02_b::run(&ctx).await;\n}\n";
    let out = register_test_execution(content, "t03_c").unwrap();
    assert_eq!(
        out,
        "async fn all() {\n    compliance::t01_a::run(&ctx).await;\n    compliance::t02_b::run(&ctx).await;\n    compliance::t03_c::run(&ctx).await;\n}\n"
    );
    assert!(register_test_execution(&out, "t03_c").is_none());
    assert!(register_test_execution("fn main() {}\n", "t03_c").is_none());
}

#[test]
fn register_table_truncate_once() {
    let content = "TRUNCATE public.\\\"Product\\\" CASCADE";
    let out = register_table_truncate(content, "Customer").unwrap();
    assert_eq!(out, "TRUNCATE public.\\\"Product\\\", public.\\\"Customer\\\" CASCADE");
    assert!(register_table_truncate(&out, "Customer").is_none());
}

#[test]
fn register_migration_lists_it_first() {
    let content = "use a;\nuse b;\npub struct Migrator;\n    fn migrations() -> Vec<Box<dyn MigrationTrait>> {\n        vec![\n            Box::new(m1::Migration),\n        ]\n    }\n";
    let out = register_migration_in_migrator(content, "m2_create_x_table").unwrap();
    assert_eq!(
        out,
        "use a;\nuse b;\nmod m2_create_x_table;\npub struct Migrator;\n    fn migrations() -> Vec<Box<dyn MigrationTrait>> {\n        vec![\n            Box::new(m2_create_x_table::Migration),\n            Box::new(m1::Migration),\n        ]\n    }\n"
    );
    assert!(register_migration_in_migrator(&out, "m2_create_x_table").is_none());
}

#[test]
fn register_rbac_feature_adds_row_and_id() {
    let content = "let features_data = vec![\n        (\"product\", \"Produtos\"),\n    ];\n    let features = vec![\"product\"];\n";
    let out = register_rbac_feature(content, "customer", "Clientes").unwrap();
    assert_eq!(
        out,
        "let features_data = vec![\n        (\"product\", \"Produtos\"),\n        (\"customer\", \"Clientes\"),\n    ];\n    let features = vec![\"product\", \"customer\"];\n"
    );
    assert!(register_rbac_feature(&out, "customer", "Clientes").is_none());
}

#[test]
fn register_observability_adds_api() {
    let content = "use product::ProductApi,\nProductApi::openapi(),\n(name = \"Product\", description = \"Product Catalog & Pricing\"),\n";
    let out = register_observability(content, "Customer", "customer", "Clientes", "Gestão de clientes").unwrap();
    assert_eq!(
        out,
        "use product::ProductApi, customer::CustomerApi,\nProductApi::openapi(),\n        CustomerApi::openapi(),\n(name = \"Product\", description = \"Product Catalog & Pricing\"),\n        (name = \"Clientes\", description = \"Gestão de clientes\"),\n"
    );
    assert!(register_observability(&out, "Customer", "customer", "Clientes", "x").is_none());
}

#[test]
fn template_replacements_apply_in_order() {
    let out = apply_template("Hello {{Name}} {{Name}} from {{Place}}!", &[("{{Name}}", "Ana"), ("{{Place}}", "Rio")]);
    assert_eq!(out, "Hello Ana Ana from Rio!");
}

#[test]
fn text_edit_primitives() {
    assert_eq!(lines("a\r\nb\n"), vec!["a".to_string(), "b".to_string()]);
    assert!(lines("").is_empty());
    assert_eq!(lines("x\r"), vec!["x\r".to_string()]);
    assert_eq!(lines("\n\n"), vec!["".to_string(), "".to_string()]);
    assert_eq!(replace("aaa", "aa", "b"), "ba");
    assert_eq!(replace("abc", "z", "y"), "abc");
    assert_eq!(last_index_of("a]b]c", ']'), Some(3));
    assert_eq!(last_index_of("abc", ']'), None);
}

#[test]
fn storage_menu_and_plans() {
    assert_eq!(provider_from_menu(0), Some(CloudProvider::S3));
    assert_eq!(provider_from_menu(1), Some(CloudProvider::Gcs));
    assert_eq!(provider_from_menu(2), Some(CloudProvider::Azure));
    assert_eq!(provider_from_menu(3), None);
    let plan = provider_plan(CloudProvider::Azure);
    assert_eq!(plan.key, "azure");
    assert_eq!(plan.dest_path, "src/infra/storage/azure.rs");
    assert_eq!(plan.dependencies.len(), 3);
}

#[test]
fn add_dependencies_once_each() {
    let content = "[package]\n[dependencies]\nserde = \"1\"\n";
    let out = add_dependencies(content, &vec!["aws-config = \"1.1.7\"", "serde = \"2\""]).unwrap();
    assert_eq!(out, "[package]\n[dependencies]\naws-config = \"1.1.7\"\nserde = \"1\"\n");
    assert_eq!(add_dependencies(&out, &vec!["aws-config = \"1.1.7\"", "serde = \"2\""]).unwrap(), out);
    assert_eq!(
        add_dependencies("[package]\n", &vec!["x = \"1\""]).unwrap_err(),
        "Could not find [dependencies] block in Cargo.toml"
    );
}

#[test]
fn register_provider_module_and_arm() {
    let content = "pub mod local;\n/* {{GENERATED_PROVIDERS}} */\n";
    let out = register_provider_in_mod(content, "s3", "S3StorageService");
    assert_eq!(
        out,
        "pub mod local;\npub mod s3;\n\"s3\" => {\n                info!(\"[Storage] Initializing S3StorageService...\");\n                Arc::new(s3::S3StorageService::new().await?)\n            }\n            /* {{GENERATED_PROVIDERS}} */\n"
    );
    assert_eq!(register_provider_in_mod(&out, "s3", "S3StorageService"), out);
}

#[test]
fn env_lines_point_at_provider() {
    let plan = provider_plan(CloudProvider::S3);
    let out = update_env_lines(&args(&["PORT=1", "STORAGE_PROVIDER=local", "AWS_S3_BUCKET=mine"]), "s3", &plan.env_vars);
    assert_eq!(
        out,
        "PORT=1\nSTORAGE_PROVIDER=s3\nAWS_S3_BUCKET=mine\nAWS_ACCESS_KEY_ID=dummy_access_key\nAWS_SECRET_ACCESS_KEY=dummy_secret_key\n"
    );
    assert_eq!(update_env_lines(&lines(&out), "s3", &plan.env_vars), out);
    let gcs = provider_plan(CloudProvider::Gcs);
    assert_eq!(
        update_env_lines(&args(&["PORT=1"]), "gcs", &gcs.env_vars),
        "PORT=1\nSTORAGE_PROVIDER=gcs\nGOOGLE_APPLICATION_CREDENTIALS=\nGCS_BUCKET=my-gcs-bucket\n"
    );
}

#[test]
fn reserved_field_names() {
    assert!(is_reserved_field_name("ID"));
    assert!(is_reserved_field_name("Created_At"));
    assert!(is_reserved_field_name("deleted_at"));
    assert!(!is_reserved_field_name("price"));
    assert!(!is_reserved_field_name("identity"));
}

#[test]
fn whitespace_matches_std() {
    for c in ['\t', '\n', '\r', ' ', '\u{85}', '\u{a0}', '\u{2003}', '\u{3000}', 'a', '_', '\u{200b}', '\u{feff}'] {
        assert_eq!(is_whitespace(c), c.is_whitespace(), "{:?}", c);
    }
}
