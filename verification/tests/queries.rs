//! Statement plans, the metastore write protocol, response shaping and
//! tenant resolution, over the resolved sample model.

use architect::ApiEntityConfig;
use architect::AppError;
use architect::ColumnConfig;
use architect::ColumnDefaultConfig;
use architect::ColumnTypeConfig;
use architect::CrudService;
use architect::FullConfig;
use architect::IncludeDirection;
use architect::JsonValue;
use architect::PoolChoice;
use architect::PrimaryKeyConfig;
use architect::RelationshipConfig;
use architect::ResolvedModel;
use architect::SchemaConfig;
use architect::TableConfig;
use architect::TenantContext;
use architect::TenantRow;
use architect::ValidationRule;
use architect::attach_includes;
use architect::parse_id;
use architect::parse_list_params;
use architect::plan_replace_rows;
use architect::plan_upsert_package;
use architect::post_process_include_columns;
use architect::registry_from_rows;
use architect::resolve;
use architect::resolve_tenant_context;
use architect::sanitize_row;
use architect::strip_sensitive_columns;
use architect::PkType;
use architect::RequestValidator;

fn s(text: &str) -> String {
    String::from(text)
}

fn table(id: &str, name: &str, pk: &str) -> TableConfig {
    TableConfig {
        id: s(id),
        schema_id: None,
        name: s(name),
        comment: None,
        primary_key: PrimaryKeyConfig::Single(s(pk)),
        unique: vec![],
        check: vec![],
    }
}

fn column(id: &str, table_id: &str, name: &str, ty: &str, with_default: bool) -> ColumnConfig {
    ColumnConfig {
        id: s(id),
        table_id: s(table_id),
        name: s(name),
        type_: ColumnTypeConfig::Simple(s(ty)),
        nullable: false,
        default: if with_default {
            Some(ColumnDefaultConfig::Expression { expression: s("gen_random_uuid()") })
        } else {
            None
        },
        comment: None,
    }
}

fn api(table_id: &str, path: &str, sensitive: Vec<String>) -> ApiEntityConfig {
    ApiEntityConfig {
        entity_id: s(table_id),
        path_segment: s(path),
        operations: vec![s("read"), s("create"), s("update"), s("delete"), s("bulk_create"), s(
            "bulk_update",
        )],
        sensitive_columns: sensitive,
        validation: vec![],
    }
}

fn sample_model() -> ResolvedModel {
    let config = FullConfig {
        schemas: vec![SchemaConfig { id: s("default"), name: s("sample"), comment: None }],
        enums: vec![],
        tables: vec![
            table("t_orders", "orders", "id"),
            table("t_authors", "authors", "id"),
            table("t_books", "books", "id"),
        ],
        columns: vec![
            column("c_oid", "t_orders", "id", "uuid", true),
            column("c_total", "t_orders", "total", "numeric", false),
            column("c_aid", "t_authors", "id", "uuid", true),
            column("c_bid", "t_books", "id", "uuid", true),
            column("c_bauthor", "t_books", "author_id", "uuid", false),
        ],
        indexes: vec![],
        relationships: vec![RelationshipConfig {
            id: s("r_book_author"),
            from_schema_id: s("default"),
            from_table_id: s("t_books"),
            from_column_id: s("c_bauthor"),
            to_schema_id: s("default"),
            to_table_id: s("t_authors"),
            to_column_id: s("c_aid"),
            on_update: None,
            on_delete: None,
            name: None,
        }],
        api_entities: vec![
            api("t_orders", "orders", vec![]),
            api("t_authors", "authors", vec![]),
            api("t_books", "books", vec![]),
        ],
        kv_stores: vec![],
    };
    resolve(&config).unwrap()
}

const ORDER_COLS: &str =
    "\"id\", \"total\"::text, \"created_at\", \"updated_at\", \"archived_at\"";

#[test]
fn select_by_id_shape() {
    let model = sample_model();
    let orders = model.entity_by_path("orders").unwrap();
    let q = CrudService::read(orders, &JsonValue::Str(s("abc")), None);
    assert_eq!(
        q.sql,
        format!("SELECT {} FROM \"sample\".\"orders\" WHERE \"id\" = $1", ORDER_COLS)
    );
    assert_eq!(q.params.len(), 1);
}

#[test]
fn list_defaults_limit_and_offset() {
    let model = sample_model();
    let orders = model.entity_by_path("orders").unwrap();
    let q = CrudService::list(orders, &vec![], None, None, None);
    assert_eq!(
        q.sql,
        format!(
            "SELECT {} FROM \"sample\".\"orders\" ORDER BY \"id\" LIMIT 100 OFFSET 0",
            ORDER_COLS
        )
    );
    assert_eq!(q.params.len(), 0);
}

#[test]
fn list_limit_clamps_to_one_thousand() {
    let model = sample_model();
    let orders = model.entity_by_path("orders").unwrap();
    let q = CrudService::list(orders, &vec![], Some(5000), Some(20), None);
    assert!(q.sql.ends_with(" LIMIT 1000 OFFSET 20"));
}

#[test]
fn list_filters_cast_by_column_type() {
    let model = sample_model();
    let orders = model.entity_by_path("orders").unwrap();
    let filters = vec![
        (s("created_at"), JsonValue::Str(s("2024-01-01T00:00:00Z"))),
        (s("unknown"), JsonValue::Str(s("ignored"))),
    ];
    let q = CrudService::list(orders, &filters, None, None, None);
    assert!(q.sql.contains(" WHERE \"created_at\" = $1::timestamptz ORDER BY \"id\""));
    assert_eq!(q.params.len(), 1);
}

#[test]
fn schema_override_replaces_declared_schema() {
    let model = sample_model();
    let orders = model.entity_by_path("orders").unwrap();
    let q = CrudService::read(orders, &JsonValue::Str(s("x")), Some("tenant_a"));
    assert!(q.sql.contains("FROM \"tenant_a\".\"orders\""));
}

#[test]
fn insert_omits_defaulted_columns_and_binds_nulls() {
    let model = sample_model();
    let orders = model.entity_by_path("orders").unwrap();
    let body = vec![(s("total"), JsonValue::Num(s("12.5")))];
    let q = CrudService::create(orders, &body, None, None);
    assert_eq!(
        q.sql,
        format!(
            "INSERT INTO \"sample\".\"orders\" (\"total\", \"archived_at\") VALUES ($1::numeric, $2::timestamptz) RETURNING {}",
            ORDER_COLS
        )
    );
    assert_eq!(q.params.len(), 2);
    assert!(q.params[0].deep_eq(&JsonValue::Num(s("12.5"))));
    assert!(q.params[1].deep_eq(&JsonValue::Null));
}

#[test]
fn insert_includes_key_only_when_body_provides_it() {
    let model = sample_model();
    let orders = model.entity_by_path("orders").unwrap();
    let body = vec![
        (s("id"), JsonValue::Str(s("67e55044-10b1-426f-9247-bb680e5fe0c8"))),
        (s("total"), JsonValue::Num(s("3"))),
    ];
    let q = CrudService::create(orders, &body, None, None);
    assert!(q.sql.starts_with("INSERT INTO \"sample\".\"orders\" (\"id\", \"total\", \"archived_at\")"));
}

#[test]
fn rls_insert_appends_tenant_column_and_value() {
    let model = sample_model();
    let orders = model.entity_by_path("orders").unwrap();
    let body = vec![(s("total"), JsonValue::Num(s("1")))];
    let q = CrudService::create(orders, &body, None, Some("tenant-3"));
    assert!(q.sql.contains("(\"total\", \"archived_at\", \"tenant_id\")"));
    assert!(q.sql.contains("VALUES ($1::numeric, $2::timestamptz, $3)"));
    assert!(q.sql.ends_with(&format!("RETURNING {}, \"tenant_id\"", ORDER_COLS)));
    assert!(q.params[2].deep_eq(&JsonValue::Str(s("tenant-3"))));
}

#[test]
fn update_sets_known_columns_and_refreshes_timestamp() {
    let model = sample_model();
    let orders = model.entity_by_path("orders").unwrap();
    let body = vec![
        (s("total"), JsonValue::Num(s("9"))),
        (s("tenant_id"), JsonValue::Str(s("ignored"))),
        (s("nonsense"), JsonValue::Null),
    ];
    let id = JsonValue::Str(s("row-1"));
    let q = CrudService::update(orders, &id, &body, None);
    assert_eq!(
        q.sql,
        format!(
            "UPDATE \"sample\".\"orders\" SET \"total\" = $1::numeric, \"updated_at\" = NOW() WHERE \"id\" = $2 RETURNING {}",
            ORDER_COLS
        )
    );
    assert_eq!(q.params.len(), 2);
    assert!(q.params[1].deep_eq(&id));
}

#[test]
fn update_without_recognized_keys_degrades_to_select() {
    let model = sample_model();
    let orders = model.entity_by_path("orders").unwrap();
    let body = vec![(s("nonsense"), JsonValue::Null)];
    let q = CrudService::update(orders, &JsonValue::Str(s("row-1")), &body, None);
    assert!(q.sql.starts_with("SELECT "));
    assert_eq!(q.params.len(), 1);
}

#[test]
fn delete_returns_all_columns() {
    let model = sample_model();
    let orders = model.entity_by_path("orders").unwrap();
    let q = CrudService::delete(orders, &JsonValue::Str(s("row-1")), None);
    assert_eq!(
        q.sql,
        format!("DELETE FROM \"sample\".\"orders\" WHERE \"id\" = $1 RETURNING {}", ORDER_COLS)
    );
    assert_eq!(q.params.len(), 1);
}

#[test]
fn batch_fetch_by_column() {
    let model = sample_model();
    let books = model.entity_by_path("books").unwrap();
    let values = vec![JsonValue::Str(s("a")), JsonValue::Str(s("b"))];
    let q = CrudService::fetch_where_column_in(books, "author_id", &values, None).unwrap();
    assert!(q.sql.contains("WHERE \"author_id\" IN ($1::uuid, $2::uuid) ORDER BY \"id\""));
    assert_eq!(q.params.len(), 2);
    assert!(CrudService::fetch_where_column_in(books, "author_id", &vec![], None).is_none());
}

#[test]
fn bulk_limits_reject_oversized_requests() {
    let model = sample_model();
    let orders = model.entity_by_path("orders").unwrap();
    let mut items = Vec::new();
    for _ in 0..101 {
        items.push(vec![(s("total"), JsonValue::Num(s("1")))]);
    }
    match CrudService::bulk_create(orders, &items, None, None) {
        Err(AppError::Validation(_)) => (),
        _ => panic!("more than 100 items must fail with validation"),
    }
    items.truncate(100);
    assert_eq!(CrudService::bulk_create(orders, &items, None, None).unwrap().len(), 100);

    let mut updates = Vec::new();
    for _ in 0..101 {
        updates.push(vec![(s("id"), JsonValue::Str(s("x")))]);
    }
    assert!(matches!(
        CrudService::bulk_update(orders, &updates, None),
        Err(AppError::Validation(_))
    ));
    let missing_key = vec![vec![(s("total"), JsonValue::Num(s("2")))]];
    assert!(matches!(
        CrudService::bulk_update(orders, &missing_key, None),
        Err(AppError::Validation(_))
    ));
}

#[test]
fn single_query_attachment_shapes() {
    let model = sample_model();
    let authors = model.entity_by_path("authors").unwrap();
    let books = model.entity_by_path("books").unwrap();
    let incs = vec![architect::IncludeSelect {
        name: "books",
        direction: IncludeDirection::ToMany,
        related: books,
        our_key: "id",
        their_key: "author_id",
    }];
    let q = architect::CrudService::list(authors, &vec![], None, None, None);
    assert!(q.sql.starts_with("SELECT "));
    let qi = {
        // The single-query form inlines the attachment as a scalar
        // subquery with the empty-array coalesce.
        let q = architect_select_with(authors, &incs);
        q
    };
    assert!(qi.sql.contains("COALESCE(json_agg(row_to_json(sub)), '[]'::json)"));
    assert!(qi.sql.contains("WHERE \"author_id\" = main.\"id\""));
    assert!(qi.sql.contains(" AS \"books\""));
    assert!(qi.sql.contains("FROM \"sample\".\"authors\" main"));
    assert!(qi.sql.contains(" ORDER BY main.\"id\""));
}

fn architect_select_with(
    entity: &architect::ResolvedEntity,
    incs: &Vec<architect::IncludeSelect<'_>>,
) -> architect::QueryBuf {
    architect::select_list_with_includes(entity, &vec![], Some(100), Some(0), incs, None)
}

#[test]
fn replace_plan_keeps_version_on_equal_payloads() {
    let rec = JsonValue::Obj(vec![
        (s("id"), JsonValue::Str(s("e1"))),
        (s("name"), JsonValue::Str(s("orders"))),
    ]);
    let current = vec![(s("e1"), rec.deep_copy())];
    let records = vec![rec.deep_copy()];
    let plan = plan_replace_rows("_sys_tables", &current, 3, &records).unwrap();
    assert!(plan.unchanged);
    assert_eq!(plan.new_version, 3);
    assert_eq!(plan.history.len(), 0);
    assert_eq!(plan.inserts.len(), 0);
}

#[test]
fn replace_plan_advances_version_once_and_records_history() {
    let old = JsonValue::Obj(vec![(s("id"), JsonValue::Str(s("e1")))]);
    let new = JsonValue::Obj(vec![
        (s("id"), JsonValue::Str(s("e1"))),
        (s("name"), JsonValue::Str(s("renamed"))),
    ]);
    let current = vec![(s("e1"), old.deep_copy())];
    let records = vec![new.deep_copy()];
    let plan = plan_replace_rows("_sys_tables", &current, 3, &records).unwrap();
    assert!(!plan.unchanged);
    assert_eq!(plan.new_version, 4);
    assert_eq!(plan.history.len(), 1);
    assert_eq!(plan.history[0].0, "e1");
    assert!(plan.history[0].1.deep_eq(&old));
    assert_eq!(plan.inserts.len(), 1);
    assert_eq!(plan.inserts[0].0, "e1");
    assert!(plan.inserts[0].1.deep_eq(&new));
}

#[test]
fn replace_plan_requires_record_ids() {
    let record = JsonValue::Obj(vec![(s("name"), JsonValue::Str(s("anonymous")))]);
    assert!(plan_replace_rows("_sys_tables", &vec![], 0, &vec![record]).is_err());
    // API entities may carry entity_id instead of id.
    let by_entity = JsonValue::Obj(vec![(s("entity_id"), JsonValue::Str(s("t1")))]);
    let plan = plan_replace_rows("_sys_api_entities", &vec![], 0, &vec![by_entity]).unwrap();
    assert_eq!(plan.inserts[0].0, "t1");
}

#[test]
fn package_upsert_versions_follow_the_semantic_version() {
    let v1 = JsonValue::Obj(vec![(s("version"), JsonValue::Str(s("1.0.0")))]);
    let again = plan_upsert_package(Some(&(v1.deep_copy(), 5)), &v1);
    assert_eq!(again.new_version, 5);
    assert!(again.history.is_none());

    let v2 = JsonValue::Obj(vec![(s("version"), JsonValue::Str(s("1.0.1")))]);
    let bumped = plan_upsert_package(Some(&(v1.deep_copy(), 5)), &v2);
    assert_eq!(bumped.new_version, 6);
    let (old_payload, old_version) = bumped.history.unwrap();
    assert!(old_payload.deep_eq(&v1));
    assert_eq!(old_version, 5);

    let first = plan_upsert_package(None, &v1);
    assert_eq!(first.new_version, 1);
    assert!(first.history.is_none());
}

#[test]
fn sensitive_columns_never_survive_sanitation() {
    let row = JsonValue::Obj(vec![
        (s("id"), JsonValue::Str(s("u1"))),
        (s("password_hash"), JsonValue::Str(s("SECRET-REDACTED"))),
        (s("display_name"), JsonValue::Str(s("Sam"))),
    ]);
    let sensitive = vec![s("password_hash")];
    let stripped = strip_sensitive_columns(&row, &sensitive);
    match &stripped {
        JsonValue::Obj(pairs) => {
            assert_eq!(pairs.len(), 2);
            assert!(pairs.iter().all(|(k, _)| k != "password_hash"));
        },
        _ => panic!("rows stay objects"),
    }
    let sanitized = sanitize_row(&row, &sensitive);
    match &sanitized {
        JsonValue::Obj(pairs) => {
            let keys: Vec<&str> = pairs.iter().map(|(k, _)| k.as_str()).collect();
            assert_eq!(keys, vec!["id", "displayName"]);
            assert!(keys.iter().all(|k| *k != "password_hash" && *k != "passwordHash"));
        },
        _ => panic!("rows stay objects"),
    }
}

fn author_row(id: &str) -> JsonValue {
    JsonValue::Obj(vec![(s("id"), JsonValue::Str(s(id)))])
}

fn book_row(id: &str, author: &str) -> JsonValue {
    JsonValue::Obj(vec![
        (s("id"), JsonValue::Str(s(id))),
        (s("author_id"), JsonValue::Str(s(author))),
    ])
}

#[test]
fn batch_attachment_groups_related_rows() {
    let rows = vec![author_row("a1"), author_row("a2")];
    let related = vec![book_row("b1", "a1"), book_row("b2", "a1"), book_row("b3", "a9")];
    let attached = attach_includes(
        &rows,
        "books",
        IncludeDirection::ToMany,
        "id",
        "author_id",
        &related,
        &vec![],
    );
    match &attached[0] {
        JsonValue::Obj(pairs) => {
            assert_eq!(pairs.last().unwrap().0, "books");
            match &pairs.last().unwrap().1 {
                JsonValue::Arr(items) => assert_eq!(items.len(), 2),
                _ => panic!("to-many attaches an array"),
            }
        },
        _ => panic!("rows stay objects"),
    }
    match &attached[1] {
        JsonValue::Obj(pairs) => match &pairs.last().unwrap().1 {
            JsonValue::Arr(items) => assert_eq!(items.len(), 0),
            _ => panic!("to-many attaches an array"),
        },
        _ => panic!("rows stay objects"),
    }
}

#[test]
fn both_attachment_forms_agree() {
    // Simulate the single-query form: the raw matching rows arrive as a
    // column appended under the attachment name; post-processing it must
    // yield exactly what the batch form computes.
    let related = vec![book_row("b1", "a1"), book_row("b2", "a1")];
    let raw_single = vec![JsonValue::Obj(vec![
        (s("id"), JsonValue::Str(s("a1"))),
        (s("books"), JsonValue::Arr(vec![book_row("b1", "a1"), book_row("b2", "a1")])),
    ])];
    let sensitive = vec![s("author_id")];
    let processed =
        post_process_include_columns(&raw_single, "books", IncludeDirection::ToMany, &sensitive);

    let rows = vec![author_row("a1")];
    let attached = attach_includes(
        &rows,
        "books",
        IncludeDirection::ToMany,
        "id",
        "author_id",
        &related,
        &sensitive,
    );
    assert!(processed[0].deep_eq(&attached[0]));
}

#[test]
fn path_id_parsing_follows_the_key_kind() {
    let id = parse_id("67E55044-10B1-426F-9247-BB680E5FE0C8", &PkType::Uuid).unwrap();
    assert!(id.deep_eq(&JsonValue::Str(s("67e55044-10b1-426f-9247-bb680e5fe0c8"))));
    assert!(parse_id("not-a-uuid", &PkType::Uuid).is_err());
    assert!(parse_id("12", &PkType::BigInt).unwrap().deep_eq(&JsonValue::Int(12)));
    assert!(parse_id("twelve", &PkType::Int).is_err());
    assert!(parse_id("slug", &PkType::Text).unwrap().deep_eq(&JsonValue::Str(s("slug"))));
}

#[test]
fn list_parameters_parse_and_filter() {
    let model = sample_model();
    let orders = model.entity_by_path("orders").unwrap();
    let params = vec![
        (s("limit"), s("2000")),
        (s("offset"), s("5")),
        (s("include"), s(" books , ,authors ")),
        (s("createdAt"), s("2024-01-01T00:00:00Z")),
        (s("unknownKey"), s("zzz")),
    ];
    let parsed = parse_list_params(orders, &params);
    assert_eq!(parsed.limit, Some(2000));
    assert_eq!(parsed.offset, Some(5));
    assert_eq!(parsed.include_names, vec![s("books"), s("authors")]);
    assert_eq!(parsed.filters.len(), 1);
    assert_eq!(parsed.filters[0].0, "created_at");
}

#[test]
fn tenant_registry_loads_and_skips_unusable_rows() {
    let rows = vec![
        TenantRow {
            id: s("t-db"),
            strategy: s("database"),
            database_url: Some(s("postgres://u:p@h/db1")),
            schema_name: None,
        },
        TenantRow {
            id: s("t-db-broken"),
            strategy: s("database"),
            database_url: None,
            schema_name: None,
        },
        TenantRow { id: s("t-rls"), strategy: s("rls"), database_url: None, schema_name: None },
    ];
    let registry = registry_from_rows(rows).unwrap();
    assert!(registry.get("t-db").is_some());
    assert!(registry.get("t-db-broken").is_none());
    assert!(registry.get("t-rls").is_some());
    assert!(!registry.is_empty());

    let bad = vec![TenantRow {
        id: s("x"),
        strategy: s("sharded"),
        database_url: None,
        schema_name: None,
    }];
    assert!(registry_from_rows(bad).is_err());
}

#[test]
fn tenant_contexts_isolate_by_strategy() {
    let rows = vec![
        TenantRow {
            id: s("t1"),
            strategy: s("database"),
            database_url: Some(s("postgres://u:p@h/db1")),
            schema_name: None,
        },
        TenantRow {
            id: s("t2"),
            strategy: s("database"),
            database_url: Some(s("postgres://u:p@h/db2")),
            schema_name: None,
        },
        TenantRow { id: s("t3"), strategy: s("rls"), database_url: None, schema_name: None },
        TenantRow {
            id: s("t4"),
            strategy: s("schema"),
            database_url: None,
            schema_name: Some(s("tenant_four")),
        },
    ];
    let registry = registry_from_rows(rows).unwrap();

    // Missing or blank tenant header: a client error.
    assert!(matches!(
        resolve_tenant_context(&registry, None, "_default"),
        Err(AppError::BadRequest(_))
    ));
    assert!(matches!(
        resolve_tenant_context(&registry, Some(""), "_default"),
        Err(AppError::BadRequest(_))
    ));
    // Unknown tenant: not found.
    assert!(matches!(
        resolve_tenant_context(&registry, Some("nobody"), "_default"),
        Err(AppError::NotFound(_))
    ));

    // Database tenants get their own pool and their own cache key.
    let c1 = resolve_tenant_context(&registry, Some("t1"), "_default").unwrap();
    let c2 = resolve_tenant_context(&registry, Some("t2"), "_default").unwrap();
    match (&c1, &c2) {
        (
            TenantContext::Pool { pool: p1, package_cache_key: k1, .. },
            TenantContext::Pool { pool: p2, package_cache_key: k2, .. },
        ) => {
            assert_eq!(k1, "_default:t1");
            assert_eq!(k2, "_default:t2");
            assert_ne!(k1, k2);
            match (p1, p2) {
                (
                    PoolChoice::Tenant { tenant_id: a, database_url: ua },
                    PoolChoice::Tenant { tenant_id: b, database_url: ub },
                ) => {
                    assert_ne!(a, b);
                    assert_ne!(ua, ub);
                },
                _ => panic!("database tenants use their own pools"),
            }
        },
        _ => panic!("database tenants run on pools"),
    }

    // The session-local tenant id of a pinned connection is the
    // requesting tenant.
    match resolve_tenant_context(&registry, Some("t3"), "pkg").unwrap() {
        TenantContext::Rls { tenant_id, pool, package_cache_key } => {
            assert_eq!(tenant_id, "t3");
            assert_eq!(package_cache_key, "pkg");
            assert!(matches!(pool, PoolChoice::Central));
        },
        _ => panic!("rls tenants run on a pinned connection"),
    }

    // Schema tenants keep the central pool under a schema override.
    match resolve_tenant_context(&registry, Some("t4"), "pkg").unwrap() {
        TenantContext::Pool { schema_override, .. } => {
            assert_eq!(schema_override.as_deref(), Some("tenant_four"));
        },
        _ => panic!("schema tenants run on pools"),
    }
}

#[test]
fn request_validation_enforces_declared_rules() {
    let rules = vec![
        (s("email"), ValidationRule {
            required: Some(true),
            format: Some(s("email")),
            max_length: Some(40),
            min_length: None,
            pattern: None,
            allowed: None,
            minimum: None,
            maximum: None,
        }),
        (s("count"), ValidationRule {
            required: None,
            format: None,
            max_length: None,
            min_length: None,
            pattern: None,
            allowed: None,
            minimum: Some(1),
            maximum: Some(10),
        }),
    ];
    let ok = vec![
        (s("email"), JsonValue::Str(s("sam@example.com"))),
        (s("count"), JsonValue::Int(5)),
    ];
    assert!(RequestValidator::validate(&ok, &rules).is_ok());

    let missing: Vec<(String, JsonValue)> = vec![(s("count"), JsonValue::Int(5))];
    assert!(matches!(RequestValidator::validate(&missing, &rules), Err(AppError::Validation(_))));

    let bad_mail = vec![(s("email"), JsonValue::Str(s("nope")))];
    assert!(matches!(RequestValidator::validate(&bad_mail, &rules), Err(AppError::Validation(_))));

    let too_big = vec![
        (s("email"), JsonValue::Str(s("sam@example.com"))),
        (s("count"), JsonValue::Int(11)),
    ];
    assert!(matches!(RequestValidator::validate(&too_big, &rules), Err(AppError::Validation(_))));

    // Partial validation ignores absent required fields.
    let partial = vec![(s("count"), JsonValue::Int(2))];
    assert!(RequestValidator::validate_partial(&partial, &rules).is_ok());
}

#[test]
fn pattern_rules_use_the_declared_expression() {
    let rules = vec![(s("code"), ValidationRule {
        required: None,
        format: None,
        max_length: None,
        min_length: None,
        pattern: Some(s("^[a-z]{3}[0-9]$")),
        allowed: None,
        minimum: None,
        maximum: None,
    })];
    let good = vec![(s("code"), JsonValue::Str(s("abc1")))];
    assert!(RequestValidator::validate(&good, &rules).is_ok());
    let bad = vec![(s("code"), JsonValue::Str(s("nope")))];
    assert!(RequestValidator::validate(&bad, &rules).is_err());
    let broken = vec![(s("code"), JsonValue::Str(s("x")))];
    let broken_rules = vec![(s("code"), ValidationRule {
        required: None,
        format: None,
        max_length: None,
        min_length: None,
        pattern: Some(s("(")),
        allowed: None,
        minimum: None,
        maximum: None,
    })];
    assert!(RequestValidator::validate(&broken, &broken_rules).is_err());
}

#[test]
fn update_never_assigns_the_primary_key() {
    let model = sample_model();
    let orders = model.entity_by_path("orders").unwrap();
    let body = vec![
        (s("id"), JsonValue::Str(s("other-row"))),
        (s("total"), JsonValue::Num(s("4"))),
    ];
    let q = CrudService::update(orders, &JsonValue::Str(s("row-1")), &body, None);
    assert!(!q.sql.contains("\"id\" = $1"));
    assert!(q.sql.contains("SET \"total\" = $1::numeric, \"updated_at\" = NOW()"));
}

#[test]
fn to_one_attachment_takes_the_first_match_or_null() {
    let rows = vec![book_row("b1", "a1"), book_row("b2", "missing")];
    let related = vec![author_row("a1")];
    let attached = attach_includes(
        &rows,
        "authors",
        IncludeDirection::ToOne,
        "author_id",
        "id",
        &related,
        &vec![],
    );
    match &attached[0] {
        JsonValue::Obj(pairs) => {
            assert_eq!(pairs.last().unwrap().0, "authors");
            assert!(matches!(pairs.last().unwrap().1, JsonValue::Obj(_)));
        },
        _ => panic!("rows stay objects"),
    }
    match &attached[1] {
        JsonValue::Obj(pairs) => assert!(matches!(pairs.last().unwrap().1, JsonValue::Null)),
        _ => panic!("rows stay objects"),
    }
}
