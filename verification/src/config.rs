//! Raw declarative configuration records, as ingested from the metastore or
//! from a package bundle.

use vstd::prelude::*;

use crate::json::JsonValue;

verus! {

pub struct SchemaConfig {
    pub id: String,
    pub name: String,
    pub comment: Option<String>,
}

pub struct EnumConfig {
    pub id: String,
    pub schema_id: Option<String>,
    pub name: String,
    pub values: Vec<String>,
    pub comment: Option<String>,
}

pub struct TableCheck {
    pub name: String,
    pub expression: String,
}

pub enum PrimaryKeyConfig {
    Single(String),
    Composite(Vec<String>),
}

pub struct TableConfig {
    pub id: String,
    pub schema_id: Option<String>,
    pub name: String,
    pub comment: Option<String>,
    pub primary_key: PrimaryKeyConfig,
    pub unique: Vec<Vec<String>>,
    pub check: Vec<TableCheck>,
}

pub enum ColumnTypeConfig {
    Simple(String),
    Parameterized { name: String, params: Option<Vec<u32>> },
}

pub enum ColumnDefaultConfig {
    Literal(String),
    Expression { expression: String },
}

pub struct ColumnConfig {
    pub id: String,
    pub table_id: String,
    pub name: String,
    pub type_: ColumnTypeConfig,
    pub nullable: bool,
    pub default: Option<ColumnDefaultConfig>,
    pub comment: Option<String>,
}

pub enum IndexColumnEntry {
    Name(String),
    Spec { name: String, direction: Option<String>, nulls: Option<String> },
    Expression { expression: String },
}

pub struct IndexConfig {
    pub id: String,
    pub schema_id: Option<String>,
    pub table_id: String,
    pub name: String,
    pub method: Option<String>,
    pub unique: bool,
    pub columns: Vec<IndexColumnEntry>,
    pub include_columns: Vec<String>,
    pub where_: Option<String>,
    pub comment: Option<String>,
}

impl IndexConfig {
    /// The partial-index predicate, when one is declared.
    pub fn where_clause(&self) -> (r: Option<&str>)
        ensures
            r is Some <==> self.where_ is Some,
            r is Some ==> r->0@ == self.where_->0@,
    {
        match &self.where_ {
            Some(w) => Some(w.as_str()),
            None => None,
        }
    }
}

pub struct RelationshipConfig {
    pub id: String,
    pub from_schema_id: String,
    pub from_table_id: String,
    pub from_column_id: String,
    pub to_schema_id: String,
    pub to_table_id: String,
    pub to_column_id: String,
    pub on_update: Option<String>,
    pub on_delete: Option<String>,
    pub name: Option<String>,
}

/// Per-column request validation rules declared on an API binding.
/// Numeric bounds apply to integer values.
pub struct ValidationRule {
    pub required: Option<bool>,
    pub format: Option<String>,
    pub max_length: Option<u32>,
    pub min_length: Option<u32>,
    pub pattern: Option<String>,
    pub allowed: Option<Vec<JsonValue>>,
    pub minimum: Option<i64>,
    pub maximum: Option<i64>,
}

pub struct ApiEntityConfig {
    pub entity_id: String,
    pub path_segment: String,
    pub operations: Vec<String>,
    /// Column names that must never be exposed in API responses.
    pub sensitive_columns: Vec<String>,
    pub validation: Vec<(String, ValidationRule)>,
}

pub struct KvStoreConfig {
    pub id: String,
    pub namespace: String,
    pub comment: Option<String>,
}

/// All configuration for one package, in memory.
pub struct FullConfig {
    pub schemas: Vec<SchemaConfig>,
    pub enums: Vec<EnumConfig>,
    pub tables: Vec<TableConfig>,
    pub columns: Vec<ColumnConfig>,
    pub indexes: Vec<IndexConfig>,
    pub relationships: Vec<RelationshipConfig>,
    pub api_entities: Vec<ApiEntityConfig>,
    pub kv_stores: Vec<KvStoreConfig>,
}

/// The primary-key column names of a table, in declaration order.
pub open spec fn spec_pk_names(pk: PrimaryKeyConfig) -> Seq<Seq<char>> {
    match pk {
        PrimaryKeyConfig::Single(s) => seq![s@],
        PrimaryKeyConfig::Composite(v) => Seq::new(v@.len(), |i: int| v@[i]@),
    }
}

/// The declared type name of a column, before any parameter list.
pub open spec fn spec_type_name(t: ColumnTypeConfig) -> Seq<char> {
    match t {
        ColumnTypeConfig::Simple(s) => s@,
        ColumnTypeConfig::Parameterized { name, params } => name@,
    }
}

impl ColumnTypeConfig {
    /// The declared type name of the column.
    pub fn declared_name(&self) -> (r: &str)
        ensures
            r@ == spec_type_name(*self),
    {
        match self {
            ColumnTypeConfig::Simple(s) => s.as_str(),
            ColumnTypeConfig::Parameterized { name, params } => name.as_str(),
        }
    }
}

} // verus!
