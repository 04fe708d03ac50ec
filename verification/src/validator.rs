//! Referential validation of a configuration: every reference resolves,
//! primary keys name existing columns, and path segments are unique.

use vstd::prelude::*;

use crate::config::{FullConfig, PrimaryKeyConfig, spec_pk_names};
use crate::error::ConfigError;
use crate::strutil::str_eq;

verus! {

/// The schema id assumed when a record omits one: the first schema's id.
pub open spec fn spec_default_schema_id(c: FullConfig) -> Seq<char> {
    c.schemas@[0].id@
}

/// The schema id a record refers to: its own, or the default.
pub open spec fn effective_schema_id(o: Option<String>, d: Seq<char>) -> Seq<char> {
    match o {
        Some(s) => s@,
        None => d,
    }
}

pub open spec fn has_schema_id(c: FullConfig, sid: Seq<char>) -> bool {
    exists|i: int| 0 <= i < c.schemas@.len() && c.schemas@[i].id@ == sid
}

pub open spec fn has_table_id(c: FullConfig, tid: Seq<char>) -> bool {
    exists|i: int| 0 <= i < c.tables@.len() && c.tables@[i].id@ == tid
}

pub open spec fn has_column_id(c: FullConfig, cid: Seq<char>) -> bool {
    exists|i: int| 0 <= i < c.columns@.len() && c.columns@[i].id@ == cid
}

/// Whether the table with id `tid` declares a column named `name`.
pub open spec fn table_has_column_named(c: FullConfig, tid: Seq<char>, name: Seq<char>) -> bool {
    exists|i: int|
        0 <= i < c.columns@.len() && c.columns@[i].table_id@ == tid && c.columns@[i].name@ == name
}

pub open spec fn enums_refs_ok(c: FullConfig) -> bool {
    forall|i: int|
        0 <= i < c.enums@.len() ==> has_schema_id(
            c,
            effective_schema_id(#[trigger] c.enums@[i].schema_id, spec_default_schema_id(c)),
        )
}

pub open spec fn tables_refs_ok(c: FullConfig) -> bool {
    forall|i: int|
        0 <= i < c.tables@.len() ==> has_schema_id(
            c,
            effective_schema_id(#[trigger] c.tables@[i].schema_id, spec_default_schema_id(c)),
        )
}

/// Every primary-key column of every table exists among that table's columns.
pub open spec fn pks_ok(c: FullConfig) -> bool {
    forall|i: int, k: int|
        0 <= i < c.tables@.len() && 0 <= k < spec_pk_names(c.tables@[i].primary_key).len()
            ==> table_has_column_named(
            c,
            c.tables@[i].id@,
            #[trigger] spec_pk_names(c.tables@[i].primary_key)[k],
        )
}

pub open spec fn columns_refs_ok(c: FullConfig) -> bool {
    forall|i: int| 0 <= i < c.columns@.len() ==> has_table_id(c, #[trigger] c.columns@[i].table_id@)
}

pub open spec fn indexes_refs_ok(c: FullConfig) -> bool {
    forall|i: int|
        0 <= i < c.indexes@.len() ==> has_schema_id(
            c,
            effective_schema_id(#[trigger] c.indexes@[i].schema_id, spec_default_schema_id(c)),
        ) && has_table_id(c, c.indexes@[i].table_id@)
}

pub open spec fn rels_refs_ok(c: FullConfig) -> bool {
    forall|i: int|
        0 <= i < c.relationships@.len() ==> {
            let r = #[trigger] c.relationships@[i];
            has_schema_id(c, r.from_schema_id@) && has_schema_id(c, r.to_schema_id@)
                && has_table_id(c, r.from_table_id@) && has_table_id(c, r.to_table_id@)
                && has_column_id(c, r.from_column_id@) && has_column_id(c, r.to_column_id@)
        }
}

pub open spec fn apis_refs_ok(c: FullConfig) -> bool {
    forall|i: int|
        0 <= i < c.api_entities@.len() ==> has_table_id(c, #[trigger] c.api_entities@[i].entity_id@)
}

pub open spec fn paths_unique(c: FullConfig) -> bool {
    forall|i: int, j: int|
        0 <= i < j < c.api_entities@.len() ==> c.api_entities@[i].path_segment@
            != c.api_entities@[j].path_segment@
}

/// All reference checks together.
pub open spec fn refs_ok(c: FullConfig) -> bool {
    &&& enums_refs_ok(c)
    &&& tables_refs_ok(c)
    &&& columns_refs_ok(c)
    &&& indexes_refs_ok(c)
    &&& rels_refs_ok(c)
    &&& apis_refs_ok(c)
}

/// A configuration the validator accepts.
pub open spec fn config_valid(c: FullConfig) -> bool {
    &&& c.schemas@.len() > 0
    &&& refs_ok(c)
    &&& pks_ok(c)
    &&& paths_unique(c)
}

/// What each rejection certifies about the configuration.
pub open spec fn error_witnessed(c: FullConfig, e: ConfigError) -> bool {
    match e {
        ConfigError::Validation(_) => c.schemas@.len() == 0,
        ConfigError::MissingReference { kind, id } => !refs_ok(c),
        ConfigError::InvalidPrimaryKey { table_id, column } => !pks_ok(c),
        ConfigError::DuplicatePathSegment(p) => !paths_unique(c),
        ConfigError::Load(_) => false,
    }
}

/// The schema id used for records that omit one. Fails when no schema is
/// configured.
pub fn default_schema_id(config: &FullConfig) -> (r: Result<&str, ConfigError>)
    ensures
        r is Ok <==> config.schemas@.len() > 0,
        r is Ok ==> r->Ok_0@ == spec_default_schema_id(*config),
        r is Err ==> r->Err_0 is Validation,
{
    if config.schemas.len() > 0 {
        Ok(config.schemas[0].id.as_str())
    } else {
        Err(
            ConfigError::Validation(
                "at least one schema required (set manifest.schema)".to_owned(),
            ),
        )
    }
}

fn contains_schema(c: &FullConfig, sid: &str) -> (r: bool)
    ensures
        r == has_schema_id(*c, sid@),
{
    let n = c.schemas.len();
    let mut i: usize = 0;
    while i < n
        invariant
            i <= n,
            n == c.schemas@.len(),
            forall|j: int| 0 <= j < i ==> c.schemas@[j].id@ != sid@,
        decreases n - i,
    {
        if str_eq(c.schemas[i].id.as_str(), sid) {
            return true;
        }
        i += 1;
    }
    false
}

fn contains_table(c: &FullConfig, tid: &str) -> (r: bool)
    ensures
        r == has_table_id(*c, tid@),
{
    let n = c.tables.len();
    let mut i: usize = 0;
    while i < n
        invariant
            i <= n,
            n == c.tables@.len(),
            forall|j: int| 0 <= j < i ==> c.tables@[j].id@ != tid@,
        decreases n - i,
    {
        if str_eq(c.tables[i].id.as_str(), tid) {
            return true;
        }
        i += 1;
    }
    false
}

fn contains_column_id(c: &FullConfig, cid: &str) -> (r: bool)
    ensures
        r == has_column_id(*c, cid@),
{
    let n = c.columns.len();
    let mut i: usize = 0;
    while i < n
        invariant
            i <= n,
            n == c.columns@.len(),
            forall|j: int| 0 <= j < i ==> c.columns@[j].id@ != cid@,
        decreases n - i,
    {
        if str_eq(c.columns[i].id.as_str(), cid) {
            return true;
        }
        i += 1;
    }
    false
}

pub(crate) fn table_has_column(c: &FullConfig, tid: &str, name: &str) -> (r: bool)
    ensures
        r == table_has_column_named(*c, tid@, name@),
{
    let n = c.columns.len();
    let mut i: usize = 0;
    while i < n
        invariant
            i <= n,
            n == c.columns@.len(),
            forall|j: int|
                0 <= j < i ==> !(c.columns@[j].table_id@ == tid@ && c.columns@[j].name@ == name@),
        decreases n - i,
    {
        if str_eq(c.columns[i].table_id.as_str(), tid) && str_eq(c.columns[i].name.as_str(), name) {
            return true;
        }
        i += 1;
    }
    false
}

/// The schema id a record refers to, as a string slice.
pub(crate) fn record_schema_id<'a>(o: &'a Option<String>, d: &'a str) -> (r: &'a str)
    ensures
        r@ == effective_schema_id(*o, d@),
{
    match o {
        Some(s) => s.as_str(),
        None => d,
    }
}

/// Validate a configuration: referential integrity over schema, table and
/// column ids, primary-key columns, and path-segment uniqueness. Returns
/// `Ok` exactly on valid configurations; each rejection carries the typed
/// error for the violated check.
pub fn validate(config: &FullConfig) -> (r: Result<(), ConfigError>)
    ensures
        r is Ok <==> config_valid(*config),
        r is Err ==> error_witnessed(*config, r->Err_0),
{
    let default_sid = match default_schema_id(config) {
        Ok(s) => s,
        Err(e) => {
            return Err(e);
        },
    };

    let n_enums = config.enums.len();
    let mut i: usize = 0;
    while i < n_enums
        invariant
            i <= n_enums,
            n_enums == config.enums@.len(),
            config.schemas@.len() > 0,
            default_sid@ == spec_default_schema_id(*config),
            forall|j: int|
                0 <= j < i ==> has_schema_id(
                    *config,
                    effective_schema_id(
                        #[trigger] config.enums@[j].schema_id,
                        spec_default_schema_id(*config),
                    ),
                ),
        decreases n_enums - i,
    {
        let sid = record_schema_id(&config.enums[i].schema_id, default_sid);
        if !contains_schema(config, sid) {
            return Err(
                ConfigError::MissingReference { kind: "schema".to_owned(), id: sid.to_owned() },
            );
        }
        i += 1;
    }

    let n_tables = config.tables.len();
    let mut i: usize = 0;
    while i < n_tables
        invariant
            i <= n_tables,
            n_tables == config.tables@.len(),
            config.schemas@.len() > 0,
            default_sid@ == spec_default_schema_id(*config),
            forall|j: int|
                0 <= j < i ==> has_schema_id(
                    *config,
                    effective_schema_id(
                        #[trigger] config.tables@[j].schema_id,
                        spec_default_schema_id(*config),
                    ),
                ),
            forall|j: int, k: int|
                0 <= j < i && 0 <= k < spec_pk_names(config.tables@[j].primary_key).len()
                    ==> table_has_column_named(
                    *config,
                    config.tables@[j].id@,
                    #[trigger] spec_pk_names(config.tables@[j].primary_key)[k],
                ),
        decreases n_tables - i,
    {
        let t = &config.tables[i];
        let sid = record_schema_id(&t.schema_id, default_sid);
        if !contains_schema(config, sid) {
            return Err(
                ConfigError::MissingReference { kind: "schema".to_owned(), id: sid.to_owned() },
            );
        }
        match &t.primary_key {
            PrimaryKeyConfig::Single(pk) => {
                if !table_has_column(config, t.id.as_str(), pk.as_str()) {
                    proof {
                        assert(spec_pk_names(config.tables@[i as int].primary_key).len() == 1);
                        assert(spec_pk_names(config.tables@[i as int].primary_key)[0] == pk@);
                        assert(!pks_ok(*config));
                    }
                    return Err(
                        ConfigError::InvalidPrimaryKey {
                            table_id: t.id.clone(),
                            column: pk.clone(),
                        },
                    );
                }
            },
            PrimaryKeyConfig::Composite(pks) => {
                let n_pks = pks.len();
                let mut k: usize = 0;
                while k < n_pks
                    invariant
                        k <= n_pks,
                        n_pks == pks@.len(),
                        t == &config.tables@[i as int],
                        i < config.tables@.len(),
                        t.primary_key matches PrimaryKeyConfig::Composite(v) && v == pks,
                        forall|m: int|
                            0 <= m < k ==> table_has_column_named(
                                *config,
                                config.tables@[i as int].id@,
                                #[trigger] pks@[m]@,
                            ),
                    decreases n_pks - k,
                {
                    if !table_has_column(config, t.id.as_str(), pks[k].as_str()) {
                        proof {
                            assert(spec_pk_names(config.tables@[i as int].primary_key).len()
                                == pks@.len());
                            assert(spec_pk_names(config.tables@[i as int].primary_key)[k as int]
                                == pks@[k as int]@);
                            assert(!pks_ok(*config));
                        }
                        return Err(
                            ConfigError::InvalidPrimaryKey {
                                table_id: t.id.clone(),
                                column: pks[k].clone(),
                            },
                        );
                    }
                    k += 1;
                }
                proof {
                    assert(forall|m: int|
                        0 <= m < spec_pk_names(config.tables@[i as int].primary_key).len()
                            ==> spec_pk_names(config.tables@[i as int].primary_key)[m]
                            == pks@[m]@);
                }
            },
        }
        i += 1;
    }

    let n_columns = config.columns.len();
    let mut i: usize = 0;
    while i < n_columns
        invariant
            i <= n_columns,
            n_columns == config.columns@.len(),
            forall|j: int|
                0 <= j < i ==> has_table_id(*config, #[trigger] config.columns@[j].table_id@),
        decreases n_columns - i,
    {
        if !contains_table(config, config.columns[i].table_id.as_str()) {
            return Err(
                ConfigError::MissingReference {
                    kind: "table".to_owned(),
                    id: config.columns[i].table_id.clone(),
                },
            );
        }
        i += 1;
    }

    let n_indexes = config.indexes.len();
    let mut i: usize = 0;
    while i < n_indexes
        invariant
            i <= n_indexes,
            n_indexes == config.indexes@.len(),
            config.schemas@.len() > 0,
            default_sid@ == spec_default_schema_id(*config),
            forall|j: int|
                0 <= j < i ==> has_schema_id(
                    *config,
                    effective_schema_id(
                        #[trigger] config.indexes@[j].schema_id,
                        spec_default_schema_id(*config),
                    ),
                ) && has_table_id(*config, config.indexes@[j].table_id@),
        decreases n_indexes - i,
    {
        let idx = &config.indexes[i];
        let sid = record_schema_id(&idx.schema_id, default_sid);
        if !contains_schema(config, sid) || !contains_table(config, idx.table_id.as_str()) {
            let mut id = sid.to_owned();
            id.append(" / ");
            id.append(idx.table_id.as_str());
            return Err(
                ConfigError::MissingReference { kind: "schema or table".to_owned(), id },
            );
        }
        i += 1;
    }

    let n_rels = config.relationships.len();
    let mut i: usize = 0;
    while i < n_rels
        invariant
            i <= n_rels,
            n_rels == config.relationships@.len(),
            forall|j: int|
                0 <= j < i ==> {
                    let r = #[trigger] config.relationships@[j];
                    has_schema_id(*config, r.from_schema_id@) && has_schema_id(
                        *config,
                        r.to_schema_id@,
                    ) && has_table_id(*config, r.from_table_id@) && has_table_id(
                        *config,
                        r.to_table_id@,
                    ) && has_column_id(*config, r.from_column_id@) && has_column_id(
                        *config,
                        r.to_column_id@,
                    )
                },
        decreases n_rels - i,
    {
        let r = &config.relationships[i];
        if !contains_schema(config, r.from_schema_id.as_str()) || !contains_schema(
            config,
            r.to_schema_id.as_str(),
        ) || !contains_table(config, r.from_table_id.as_str()) || !contains_table(
            config,
            r.to_table_id.as_str(),
        ) || !contains_column_id(config, r.from_column_id.as_str()) || !contains_column_id(
            config,
            r.to_column_id.as_str(),
        ) {
            return Err(
                ConfigError::MissingReference {
                    kind: "relationship".to_owned(),
                    id: r.id.clone(),
                },
            );
        }
        i += 1;
    }

    let n_apis = config.api_entities.len();
    let mut i: usize = 0;
    while i < n_apis
        invariant
            i <= n_apis,
            n_apis == config.api_entities@.len(),
            forall|j: int|
                0 <= j < i ==> has_table_id(*config, #[trigger] config.api_entities@[j].entity_id@),
            forall|j: int, k: int|
                0 <= j < k < i ==> config.api_entities@[j].path_segment@
                    != config.api_entities@[k].path_segment@,
        decreases n_apis - i,
    {
        let api = &config.api_entities[i];
        if !contains_table(config, api.entity_id.as_str()) {
            return Err(
                ConfigError::MissingReference {
                    kind: "table".to_owned(),
                    id: api.entity_id.clone(),
                },
            );
        }
        let mut j: usize = 0;
        while j < i
            invariant
                j <= i,
                i < n_apis,
                n_apis == config.api_entities@.len(),
                api == &config.api_entities@[i as int],
                forall|m: int|
                    0 <= m < j ==> config.api_entities@[m].path_segment@
                        != config.api_entities@[i as int].path_segment@,
            decreases i - j,
        {
            if str_eq(config.api_entities[j].path_segment.as_str(), api.path_segment.as_str()) {
                return Err(ConfigError::DuplicatePathSegment(api.path_segment.clone()));
            }
            j += 1;
        }
        i += 1;
    }

    Ok(())
}

} // verus!
