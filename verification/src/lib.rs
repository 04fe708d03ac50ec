//! Configuration-driven REST backend core.
//!
//! Declarative configuration — schemas, enums, tables, columns, indexes,
//! relationships and API bindings — is validated and resolved into an
//! in-memory model; the model drives idempotent DDL rendering, a
//! parameterized SQL builder for generic CRUD, metastore write planning
//! with versioned history, response shaping, and per-tenant
//! execution-context selection. The statements run outside, against
//! PostgreSQL; what they say and what must be done with their results is
//! fixed here.

mod bind;
mod case;
mod config;
mod context;
mod crud;
mod error;
mod ids;
mod install;
mod json;
mod migration;
mod resolved;
mod resolver;
mod respond;
mod response;
mod sqlgen;
mod store;
mod strutil;
mod tenant;
mod validation;
mod validator;

pub use bind::PgBindValue;
pub use case::to_camel_case;
pub use case::to_snake_case;
pub use config::ApiEntityConfig;
pub use config::ColumnConfig;
pub use config::ColumnDefaultConfig;
pub use config::ColumnTypeConfig;
pub use config::EnumConfig;
pub use config::FullConfig;
pub use config::IndexColumnEntry;
pub use config::IndexConfig;
pub use config::KvStoreConfig;
pub use config::PrimaryKeyConfig;
pub use config::RelationshipConfig;
pub use config::SchemaConfig;
pub use config::TableCheck;
pub use config::TableConfig;
pub use config::ValidationRule;
pub use context::PoolChoice;
pub use context::TenantContext;
pub use context::resolve_tenant_context;
pub use crud::CrudService;
pub use crud::ListParams;
pub use crud::body_to_map;
pub use crud::parse_id;
pub use crud::parse_list_params;
pub use crud::query_value_for_column;
pub use crud::resolve_includes;
pub use error::AppError;
pub use error::ConfigError;
pub use error::DbErrorInfo;
pub use ids::parse_i64;
pub use ids::parse_u32;
pub use install::ManifestFields;
pub use install::config_apply_order;
pub use install::dependencies;
pub use install::inject_relationship_schema_ids;
pub use install::inject_schema_id;
pub use install::manifest_fields;
pub use install::default_manifest_schema_id;
pub use install::manifest_schema_record;
pub use json::JsonValue;
pub use migration::DdlKind;
pub use migration::DdlStatement;
pub use migration::render_migrations;
pub use resolved::ColumnInfo;
pub use resolved::IncludeDirection;
pub use resolved::IncludeSpec;
pub use resolved::PkType;
pub use resolved::ResolvedEntity;
pub use resolved::ResolvedModel;
pub use resolver::build_includes_for_table;
pub use resolver::column_pg_type_name;
pub use resolver::infer_pk_type;
pub use resolver::pk_columns_of;
pub use resolver::resolve;
pub use respond::attach_includes;
pub use respond::post_process_include_columns;
pub use respond::sanitize_row;
pub use respond::strip_sensitive_columns;
pub use respond::value_keys_to_camel_case;
pub use response::MetaCount;
pub use response::SuccessMany;
pub use response::SuccessOne;
pub use response::error_body;
pub use response::success_many;
pub use response::success_one;
pub use sqlgen::BodyMap;
pub use sqlgen::IncludeSelect;
pub use sqlgen::QueryBuf;
pub use sqlgen::select_list_with_includes;
pub use store::ReplacePlan;
pub use store::UpsertPlan;
pub use store::config_record_id;
pub use store::database_url_with_name;
pub use store::default_package_id;
pub use store::manifest_str;
pub use store::parse_db_name_from_url;
pub use store::plan_replace_rows;
pub use store::plan_upsert_package;
pub use store::qualified_sys_table;
pub use store::quote_ident;
pub use store::sys_table_for_kind;
pub use tenant::TenantEntry;
pub use tenant::TenantId;
pub use tenant::TenantRegistry;
pub use tenant::TenantRow;
pub use tenant::TenantStrategy;
pub use tenant::registry_from_rows;
pub use validation::RequestValidator;
pub use validator::default_schema_id;
pub use validator::validate;
