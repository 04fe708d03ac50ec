//! Validation, resolution and DDL rendering over a sample configuration:
//! an orders table, an author/book relationship, and a users table with a
//! sensitive column.

use architect::ApiEntityConfig;
use architect::ColumnConfig;
use architect::ColumnDefaultConfig;
use architect::ColumnTypeConfig;
use architect::ConfigError;
use architect::DdlKind;
use architect::FullConfig;
use architect::IncludeDirection;
use architect::PkType;
use architect::PrimaryKeyConfig;
use architect::RelationshipConfig;
use architect::SchemaConfig;
use architect::TableConfig;
use architect::column_pg_type_name;
use architect::config_apply_order;
use architect::infer_pk_type;
use architect::inject_schema_id;
use architect::manifest_fields;
use architect::render_migrations;
use architect::resolve;
use architect::validate;
use architect::JsonValue;

fn s(text: &str) -> String {
    String::from(text)
}

fn table(id: &str, name: &str, pk: &str) -> TableConfig {
    TableConfig {
        id: s(id),
        schema_id: None,
        name: s(name),
        comment: None,
        primary_key: PrimaryKeyConfig::Single(s(pk)),
        unique: vec![],
        check: vec![],
    }
}

fn column(id: &str, table_id: &str, name: &str, ty: &str, with_default: bool) -> ColumnConfig {
    ColumnConfig {
        id: s(id),
        table_id: s(table_id),
        name: s(name),
        type_: ColumnTypeConfig::Simple(s(ty)),
        nullable: false,
        default: if with_default {
            Some(ColumnDefaultConfig::Expression { expression: s("gen_random_uuid()") })
        } else {
            None
        },
        comment: None,
    }
}

fn api(table_id: &str, path: &str, sensitive: Vec<String>) -> ApiEntityConfig {
    ApiEntityConfig {
        entity_id: s(table_id),
        path_segment: s(path),
        operations: vec![s("read"), s("create"), s("update"), s("delete"), s("bulk_create"), s(
            "bulk_update",
        )],
        sensitive_columns: sensitive,
        validation: vec![],
    }
}

fn sample_config() -> FullConfig {
    FullConfig {
        schemas: vec![SchemaConfig { id: s("default"), name: s("sample"), comment: None }],
        enums: vec![],
        tables: vec![
            table("t_orders", "orders", "id"),
            table("t_authors", "authors", "id"),
            table("t_books", "books", "id"),
            table("t_users", "users", "id"),
        ],
        columns: vec![
            column("c_oid", "t_orders", "id", "uuid", true),
            column("c_total", "t_orders", "total", "numeric", false),
            column("c_aid", "t_authors", "id", "uuid", true),
            column("c_bid", "t_books", "id", "uuid", true),
            column("c_bauthor", "t_books", "author_id", "uuid", false),
            column("c_uid", "t_users", "id", "uuid", true),
            column("c_upw", "t_users", "password_hash", "text", false),
        ],
        indexes: vec![],
        relationships: vec![RelationshipConfig {
            id: s("r_book_author"),
            from_schema_id: s("default"),
            from_table_id: s("t_books"),
            from_column_id: s("c_bauthor"),
            to_schema_id: s("default"),
            to_table_id: s("t_authors"),
            to_column_id: s("c_aid"),
            on_update: None,
            on_delete: None,
            name: None,
        }],
        api_entities: vec![
            api("t_orders", "orders", vec![]),
            api("t_authors", "authors", vec![]),
            api("t_books", "books", vec![]),
            api("t_users", "users", vec![s("password_hash")]),
        ],
        kv_stores: vec![],
    }
}

#[test]
fn valid_config_passes_validation() {
    assert!(validate(&sample_config()).is_ok());
}

#[test]
fn dangling_table_reference_is_rejected() {
    let mut config = sample_config();
    config.columns.push(column("c_x", "t_missing", "x", "text", false));
    match validate(&config) {
        Err(ConfigError::MissingReference { kind, id }) => {
            assert_eq!(kind, "table");
            assert_eq!(id, "t_missing");
        },
        _ => panic!("a column of an unknown table must be rejected"),
    }
}

#[test]
fn missing_primary_key_column_is_rejected() {
    let mut config = sample_config();
    config.tables.push(table("t_broken", "broken", "nope"));
    config.api_entities.clear();
    match validate(&config) {
        Err(ConfigError::InvalidPrimaryKey { table_id, column }) => {
            assert_eq!(table_id, "t_broken");
            assert_eq!(column, "nope");
        },
        _ => panic!("a primary key over a missing column must be rejected"),
    }
}

#[test]
fn duplicate_path_segment_is_rejected() {
    let mut config = sample_config();
    config.api_entities.push(api("t_books", "orders", vec![]));
    match validate(&config) {
        Err(ConfigError::DuplicatePathSegment(p)) => assert_eq!(p, "orders"),
        _ => panic!("two bindings on one path must be rejected"),
    }
}

#[test]
fn empty_schema_list_is_rejected() {
    let mut config = sample_config();
    config.schemas.clear();
    assert!(matches!(validate(&config), Err(ConfigError::Validation(_))));
}

#[test]
fn resolve_builds_one_entity_per_binding_in_order() {
    let model = resolve(&sample_config()).unwrap();
    assert_eq!(model.entities.len(), 4);
    assert_eq!(model.entities[0].path_segment, "orders");
    assert_eq!(model.entities[1].path_segment, "authors");
    assert_eq!(model.entities[2].path_segment, "books");
    assert_eq!(model.entities[3].path_segment, "users");
}

#[test]
fn resolved_entity_carries_schema_key_and_audit_columns() {
    let model = resolve(&sample_config()).unwrap();
    let orders = model.entity_by_path("orders").unwrap();
    assert_eq!(orders.schema_name, "sample");
    assert_eq!(orders.table_name, "orders");
    assert_eq!(orders.pk_columns, vec![s("id")]);
    assert!(matches!(orders.pk_type, PkType::Uuid));
    let names: Vec<&str> = orders.columns.iter().map(|c| c.name.as_str()).collect();
    assert_eq!(names, vec!["id", "total", "created_at", "updated_at", "archived_at"]);
    assert!(orders.columns[2].has_default);
    assert!(!orders.columns[4].has_default);
    assert!(orders.columns[4].nullable);
    assert_eq!(orders.columns[1].pg_type.as_deref(), Some("numeric"));
}

#[test]
fn include_names_equal_related_path_segments() {
    let model = resolve(&sample_config()).unwrap();
    let books = model.entity_by_path("books").unwrap();
    assert_eq!(books.includes.len(), 1);
    assert_eq!(books.includes[0].name, "authors");
    assert_eq!(books.includes[0].related_path_segment, "authors");
    assert!(matches!(books.includes[0].direction, IncludeDirection::ToOne));
    assert_eq!(books.includes[0].our_key_column, "author_id");
    assert_eq!(books.includes[0].their_key_column, "id");

    let authors = model.entity_by_path("authors").unwrap();
    assert_eq!(authors.includes.len(), 1);
    assert_eq!(authors.includes[0].name, "books");
    assert!(matches!(authors.includes[0].direction, IncludeDirection::ToMany));
    assert_eq!(authors.includes[0].our_key_column, "id");
    assert_eq!(authors.includes[0].their_key_column, "author_id");
}

#[test]
fn unbound_related_table_yields_no_attachment() {
    let mut config = sample_config();
    // Unbind authors: the book attachment in that direction disappears.
    config.api_entities.retain(|a| a.path_segment != "authors");
    let model = resolve(&config).unwrap();
    let books = model.entity_by_path("books").unwrap();
    assert_eq!(books.includes.len(), 0);
}

#[test]
fn resolution_is_deterministic() {
    let a = resolve(&sample_config()).unwrap();
    let b = resolve(&sample_config()).unwrap();
    assert_eq!(a.entities.len(), b.entities.len());
    for (x, y) in a.entities.iter().zip(b.entities.iter()) {
        assert_eq!(x.path_segment, y.path_segment);
        assert_eq!(x.table_name, y.table_name);
        assert_eq!(x.pk_columns, y.pk_columns);
        let xn: Vec<&str> = x.columns.iter().map(|c| c.name.as_str()).collect();
        let yn: Vec<&str> = y.columns.iter().map(|c| c.name.as_str()).collect();
        assert_eq!(xn, yn);
    }
}

#[test]
fn pg_type_hint_priorities() {
    let hint = |ty: &str| column_pg_type_name(&ColumnTypeConfig::Simple(s(ty)));
    assert_eq!(hint("timestamptz").as_deref(), Some("timestamptz"));
    assert_eq!(hint("TIMESTAMP WITH TIME ZONE").as_deref(), Some("timestamptz"));
    assert_eq!(hint("timestamp").as_deref(), Some("timestamp"));
    assert_eq!(hint("date").as_deref(), Some("date"));
    assert_eq!(hint("UUID").as_deref(), Some("uuid"));
    assert_eq!(hint("numeric").as_deref(), Some("numeric"));
    assert_eq!(hint("sample.order_status").as_deref(), Some("sample.order_status"));
    assert_eq!(hint("varchar"), None);
}

#[test]
fn primary_key_kind_inference() {
    let kind = |ty: &str| infer_pk_type(&column("c", "t", "id", ty, false));
    assert!(matches!(kind("uuid"), PkType::Uuid));
    assert!(matches!(kind("BIGSERIAL"), PkType::BigInt));
    assert!(matches!(kind("bigint"), PkType::BigInt));
    assert!(matches!(kind("serial"), PkType::Int));
    assert!(matches!(kind("integer"), PkType::Int));
    assert!(matches!(kind("text"), PkType::Text));
}

#[test]
fn rendered_ddl_follows_dependency_order() {
    let stmts = render_migrations(&sample_config()).unwrap();
    // One schema, no enums, four tables, no indexes, one foreign key.
    assert_eq!(stmts.len(), 6);
    assert!(matches!(stmts[0].kind, DdlKind::CreateSchema));
    for stmt in &stmts[1..5] {
        assert!(matches!(stmt.kind, DdlKind::CreateTable));
    }
    assert!(matches!(stmts[5].kind, DdlKind::AddForeignKey));
}

#[test]
fn rendered_ddl_is_idempotent_by_form() {
    let stmts = render_migrations(&sample_config()).unwrap();
    assert_eq!(stmts[0].sql, "CREATE SCHEMA IF NOT EXISTS \"sample\"");
    assert!(!stmts[0].tolerate_failure);
    assert!(stmts[1].sql.starts_with("CREATE TABLE IF NOT EXISTS \"sample\".\"orders\""));
    assert!(stmts[1].sql.contains("\"total\" numeric NOT NULL"));
    assert!(stmts[1].sql.contains("\"created_at\" TIMESTAMPTZ NOT NULL DEFAULT NOW()"));
    assert!(stmts[1].sql.contains("PRIMARY KEY (\"id\")"));
    assert!(!stmts[1].tolerate_failure);
    assert!(stmts[5].sql.starts_with("ALTER TABLE \"sample\".\"books\" ADD CONSTRAINT"));
    assert!(stmts[5].sql.contains("FOREIGN KEY (\"author_id\") REFERENCES \"sample\".\"authors\" (\"id\")"));
    assert!(stmts[5].tolerate_failure);
}

#[test]
fn rendering_twice_yields_identical_statements() {
    let a = render_migrations(&sample_config()).unwrap();
    let b = render_migrations(&sample_config()).unwrap();
    assert_eq!(a.len(), b.len());
    for (x, y) in a.iter().zip(b.iter()) {
        assert_eq!(x.sql, y.sql);
        assert_eq!(x.tolerate_failure, y.tolerate_failure);
    }
}

#[test]
fn apply_order_is_fixed() {
    let order = config_apply_order();
    assert_eq!(order, vec![
        "schemas",
        "enums",
        "tables",
        "columns",
        "indexes",
        "relationships",
        "api_entities",
    ]);
}

#[test]
fn schema_id_is_stamped_only_when_absent() {
    let records = vec![
        JsonValue::Obj(vec![(s("id"), JsonValue::Str(s("e1")))]),
        JsonValue::Obj(vec![
            (s("id"), JsonValue::Str(s("e2"))),
            (s("schema_id"), JsonValue::Str(s("own"))),
        ]),
    ];
    let stamped = inject_schema_id(&records, "default");
    match &stamped[0] {
        JsonValue::Obj(pairs) => {
            assert_eq!(pairs.len(), 2);
            assert_eq!(pairs[1].0, "schema_id");
            assert!(pairs[1].1.deep_eq(&JsonValue::Str(s("default"))));
        },
        _ => panic!("records stay objects"),
    }
    match &stamped[1] {
        JsonValue::Obj(pairs) => {
            assert_eq!(pairs.len(), 2);
            assert!(pairs[1].1.deep_eq(&JsonValue::Str(s("own"))));
        },
        _ => panic!("records stay objects"),
    }
}

#[test]
fn manifest_requires_all_fields() {
    let manifest = JsonValue::Obj(vec![
        (s("id"), JsonValue::Str(s("pkg"))),
        (s("name"), JsonValue::Str(s("Sample"))),
        (s("version"), JsonValue::Str(s("1.0.0"))),
        (s("schema"), JsonValue::Str(s("sample"))),
    ]);
    let fields = manifest_fields(&manifest).unwrap();
    assert_eq!(fields.id, "pkg");
    assert_eq!(fields.schema, "sample");

    let missing = JsonValue::Obj(vec![(s("id"), JsonValue::Str(s("pkg")))]);
    assert!(manifest_fields(&missing).is_err());
}

#[test]
fn dangling_relationship_reference_is_rejected() {
    let mut config = sample_config();
    config.relationships.push(RelationshipConfig {
        id: s("r_broken"),
        from_schema_id: s("default"),
        from_table_id: s("t_books"),
        from_column_id: s("c_missing"),
        to_schema_id: s("default"),
        to_table_id: s("t_authors"),
        to_column_id: s("c_aid"),
        on_update: None,
        on_delete: None,
        name: None,
    });
    match validate(&config) {
        Err(ConfigError::MissingReference { kind, id }) => {
            assert_eq!(kind, "relationship");
            assert_eq!(id, "r_broken");
        },
        _ => panic!("a relationship over a missing column must be rejected"),
    }
}

#[test]
fn enum_ddl_quotes_values_and_tolerates_failure() {
    let mut config = sample_config();
    config.enums.push(architect::EnumConfig {
        id: s("e_status"),
        schema_id: None,
        name: s("order_status"),
        values: vec![s("new"), s("it's")],
        comment: None,
    });
    let stmts = render_migrations(&config).unwrap();
    let enum_stmt = stmts.iter().find(|st| matches!(st.kind, DdlKind::CreateEnum)).unwrap();
    assert_eq!(
        enum_stmt.sql,
        "CREATE TYPE \"sample\".\"order_status\" AS ENUM ('new', 'it''s')"
    );
    assert!(enum_stmt.tolerate_failure);
}
