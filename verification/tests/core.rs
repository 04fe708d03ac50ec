//! Case conversion, scalar parsing, URL handling, error mapping and the
//! response envelope.

use architect::AppError;
use architect::DbErrorInfo;
use architect::JsonValue;
use architect::PgBindValue;
use architect::database_url_with_name;
use architect::error_body;
use architect::parse_db_name_from_url;
use architect::parse_i64;
use architect::parse_u32;
use architect::success_many;
use architect::to_camel_case;
use architect::to_snake_case;

#[test]
fn snake_case_of_camel_identifiers() {
    assert_eq!(to_snake_case("userId"), "user_id");
    assert_eq!(to_snake_case("createdAt"), "created_at");
    assert_eq!(to_snake_case("a"), "a");
    assert_eq!(to_snake_case(""), "");
    assert_eq!(to_snake_case("already_snake"), "already_snake");
}

#[test]
fn camel_case_of_snake_identifiers() {
    assert_eq!(to_camel_case("user_id"), "userId");
    assert_eq!(to_camel_case("created_at"), "createdAt");
    assert_eq!(to_camel_case("simple"), "simple");
    assert_eq!(to_camel_case(""), "");
}

#[test]
fn case_round_trip_restores_camel_identifiers() {
    for ident in ["userId", "createdAt", "a", "total", "someLongFieldName2"] {
        assert_eq!(to_camel_case(&to_snake_case(ident)), ident);
    }
}

#[test]
fn case_fixed_points() {
    // No capitals: snake-casing changes nothing; no underscores:
    // camel-casing changes nothing.
    assert_eq!(to_snake_case("plain"), "plain");
    assert_eq!(to_camel_case("plain"), "plain");
}

#[test]
fn parse_i64_accepts_signs_and_rejects_junk() {
    assert_eq!(parse_i64("42"), Some(42));
    assert_eq!(parse_i64("-7"), Some(-7));
    assert_eq!(parse_i64("+5"), Some(5));
    assert_eq!(parse_i64("0"), Some(0));
    assert_eq!(parse_i64("9223372036854775807"), Some(i64::MAX));
    assert_eq!(parse_i64("-9223372036854775808"), Some(i64::MIN));
    assert_eq!(parse_i64("9223372036854775808"), None);
    assert_eq!(parse_i64(""), None);
    assert_eq!(parse_i64("-"), None);
    assert_eq!(parse_i64("12x"), None);
    assert_eq!(parse_i64("1.5"), None);
}

#[test]
fn parse_u32_bounds() {
    assert_eq!(parse_u32("0"), Some(0));
    assert_eq!(parse_u32("4294967295"), Some(u32::MAX));
    assert_eq!(parse_u32("4294967296"), None);
    assert_eq!(parse_u32("-1"), None);
    assert_eq!(parse_u32("1000"), Some(1000));
}

#[test]
fn database_url_splits_into_admin_and_name() {
    let (admin, name) =
        parse_db_name_from_url("postgres://u:p@host:5432/mydb?sslmode=require").unwrap();
    assert_eq!(admin, "postgres://u:p@host:5432/postgres");
    assert_eq!(name, "mydb");
    let (admin2, name2) = parse_db_name_from_url("postgres://u:p@host:5432/appdb").unwrap();
    assert_eq!(admin2, "postgres://u:p@host:5432/postgres");
    assert_eq!(name2, "appdb");
    assert!(parse_db_name_from_url("no-slashes-here").is_err());
}

#[test]
fn database_url_with_other_name_keeps_query() {
    let url = database_url_with_name("postgres://u:p@host:5432/mydb?sslmode=require", "other")
        .unwrap();
    assert_eq!(url, "postgres://u:p@host:5432/other?sslmode=require");
    let bare = database_url_with_name("postgres://u:p@host:5432/mydb", "other").unwrap();
    assert_eq!(bare, "postgres://u:p@host:5432/other");
}

#[test]
fn error_codes_and_statuses() {
    let not_found = AppError::NotFound(String::from("x"));
    assert_eq!(not_found.code(), "not_found");
    assert_eq!(not_found.http_status(), 404);
    let validation = AppError::Validation(String::from("x"));
    assert_eq!(validation.code(), "validation_error");
    assert_eq!(validation.http_status(), 422);
    let bad = AppError::BadRequest(String::from("x"));
    assert_eq!(bad.code(), "bad_request");
    assert_eq!(bad.http_status(), 400);
    let conflict = AppError::Conflict(String::from("x"));
    assert_eq!(conflict.code(), "conflict");
    assert_eq!(conflict.http_status(), 409);
}

#[test]
fn row_not_found_promotes_to_not_found() {
    let err = AppError::Db(DbErrorInfo { row_not_found: true, message: String::from("gone") });
    assert_eq!(err.code(), "not_found");
    assert_eq!(err.http_status(), 404);
    let other = AppError::Db(DbErrorInfo { row_not_found: false, message: String::from("boom") });
    assert_eq!(other.code(), "database_error");
    assert_eq!(other.http_status(), 500);
}

#[test]
fn list_envelope_counts_rows() {
    let rows = vec![JsonValue::Null, JsonValue::Bool(true)];
    let many = success_many(rows);
    assert_eq!(many.meta.count, 2);
    assert_eq!(many.data.len(), 2);
}

#[test]
fn error_envelope_shape() {
    let err = AppError::NotFound(String::from("missing"));
    let body = error_body(&err, String::from("not found: missing"));
    match body {
        JsonValue::Obj(outer) => {
            assert_eq!(outer.len(), 1);
            assert_eq!(outer[0].0, "error");
            match &outer[0].1 {
                JsonValue::Obj(inner) => {
                    assert_eq!(inner[0].0, "code");
                    match &inner[0].1 {
                        JsonValue::Str(s) => assert_eq!(s, "not_found"),
                        _ => panic!("code must be a string"),
                    }
                    assert_eq!(inner[1].0, "message");
                },
                _ => panic!("error must be an object"),
            }
        },
        _ => panic!("envelope must be an object"),
    }
}

#[test]
fn json_deep_eq_is_structural() {
    let a = JsonValue::Obj(vec![
        (String::from("x"), JsonValue::Int(1)),
        (String::from("y"), JsonValue::Arr(vec![JsonValue::Str(String::from("v"))])),
    ]);
    let b = JsonValue::Obj(vec![
        (String::from("x"), JsonValue::Int(1)),
        (String::from("y"), JsonValue::Arr(vec![JsonValue::Str(String::from("v"))])),
    ]);
    let c = JsonValue::Obj(vec![(String::from("x"), JsonValue::Int(2))]);
    assert!(a.deep_eq(&b));
    assert!(!a.deep_eq(&c));
    assert!(a.deep_eq(&a.deep_copy()));
}

#[test]
fn bind_values_follow_the_ladder() {
    assert!(matches!(PgBindValue::from_json(&JsonValue::Null), PgBindValue::Null));
    assert!(matches!(PgBindValue::from_json(&JsonValue::Bool(true)), PgBindValue::Bool(true)));
    assert!(matches!(PgBindValue::from_json(&JsonValue::Int(7)), PgBindValue::I64(7)));
    match PgBindValue::from_json(&JsonValue::Str(String::from(
        "67e55044-10b1-426f-9247-bb680e5fe0c8",
    ))) {
        PgBindValue::Uuid(u) => assert_eq!(u, "67e55044-10b1-426f-9247-bb680e5fe0c8"),
        _ => panic!("uuid strings bind as uuids"),
    }
    match PgBindValue::from_json(&JsonValue::Str(String::from("plain"))) {
        PgBindValue::Text(s) => assert_eq!(s, "plain"),
        _ => panic!("other strings bind as text"),
    }
    assert!(matches!(
        PgBindValue::from_json(&JsonValue::Num(String::from("1.25"))),
        PgBindValue::Numeric(_)
    ));
    assert!(matches!(
        PgBindValue::from_json(&JsonValue::Obj(vec![])),
        PgBindValue::Json(_)
    ));
}

#[test]
fn identifier_quoting_doubles_inner_quotes() {
    assert_eq!(architect::quote_ident("orders"), "\"orders\"");
    assert_eq!(architect::quote_ident("we\"ird"), "\"we\"\"ird\"");
}

#[test]
fn metastore_table_names() {
    assert_eq!(architect::sys_table_for_kind("tables"), Some("_sys_tables"));
    assert_eq!(architect::sys_table_for_kind("api_entities"), Some("_sys_api_entities"));
    assert_eq!(architect::sys_table_for_kind("nonsense"), None);
    assert_eq!(architect::qualified_sys_table("architect", "_sys_tables"), "architect._sys_tables");
    assert_eq!(architect::default_package_id(), "_default");
}

#[test]
fn record_id_prefers_id_over_entity_id() {
    let both = JsonValue::Obj(vec![
        (String::from("id"), JsonValue::Str(String::from("real"))),
        (String::from("entity_id"), JsonValue::Str(String::from("fallback"))),
    ]);
    assert_eq!(architect::config_record_id("_sys_api_entities", &both).unwrap(), "real");
    let only_entity = JsonValue::Obj(vec![(
        String::from("entity_id"),
        JsonValue::Str(String::from("fallback")),
    )]);
    assert_eq!(architect::config_record_id("_sys_api_entities", &only_entity).unwrap(), "fallback");
    assert!(architect::config_record_id("_sys_tables", &only_entity).is_err());
}

#[test]
fn response_keys_are_camel_cased() {
    let row = JsonValue::Obj(vec![
        (String::from("created_at"), JsonValue::Str(String::from("now"))),
        (String::from("total"), JsonValue::Int(3)),
    ]);
    match architect::value_keys_to_camel_case(&row) {
        JsonValue::Obj(pairs) => {
            assert_eq!(pairs[0].0, "createdAt");
            assert_eq!(pairs[1].0, "total");
        },
        _ => panic!("rows stay objects"),
    }
}
