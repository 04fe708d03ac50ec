//! The tenant registry: per-tenant isolation strategy and connection
//! configuration, loaded from the central database at startup.

use vstd::prelude::*;
use vstd::string::*;

use crate::case::{lower_ascii_str, lower_seq};
use crate::error::AppError;
use crate::strutil::str_eq;

verus! {

/// Tenant isolation strategy.
#[derive(Clone, Copy, PartialEq, Eq, Structural)]
pub enum TenantStrategy {
    /// The tenant has its own database, reached through its own pool.
    Database,
    /// The tenant shares the database but owns a schema.
    Schema,
    /// The tenant shares database and schema; isolation is row-level
    /// security keyed by a session-local tenant id.
    Rls,
}

/// The strategy a registry row names, case-insensitively.
pub open spec fn spec_parse_strategy(s: Seq<char>) -> Option<TenantStrategy> {
    let l = lower_seq(s);
    if l == "database"@ {
        Some(TenantStrategy::Database)
    } else if l == "schema"@ {
        Some(TenantStrategy::Schema)
    } else if l == "rls"@ {
        Some(TenantStrategy::Rls)
    } else {
        None
    }
}

impl TenantStrategy {
    /// Parse a strategy name; an unknown name is a client error.
    pub fn parse(s: &str) -> (r: Result<TenantStrategy, AppError>)
        ensures
            r is Ok <==> spec_parse_strategy(s@) is Some,
            r is Ok ==> r->Ok_0 == spec_parse_strategy(s@)->0,
            r is Err ==> r->Err_0 is BadRequest,
    {
        let l = lower_ascii_str(s);
        if str_eq(l.as_str(), "database") {
            Ok(TenantStrategy::Database)
        } else if str_eq(l.as_str(), "schema") {
            Ok(TenantStrategy::Schema)
        } else if str_eq(l.as_str(), "rls") {
            Ok(TenantStrategy::Rls)
        } else {
            let mut m = "invalid tenant strategy: ".to_owned();
            m.append(s);
            m.append(" (expected database, schema, or rls)");
            Err(AppError::BadRequest(m))
        }
    }
}

/// Per-tenant configuration from the registry.
pub struct TenantEntry {
    pub strategy: TenantStrategy,
    /// Required when the strategy is its own database.
    pub database_url: Option<String>,
    /// Required when the strategy is its own schema.
    pub schema_name: Option<String>,
}

#[verifier::ext_equal]
pub ghost struct TenantEntryModel {
    pub strategy: TenantStrategy,
    pub database_url: Option<Seq<char>>,
    pub schema_name: Option<Seq<char>>,
}

impl View for TenantEntry {
    type V = TenantEntryModel;

    open spec fn view(&self) -> TenantEntryModel {
        TenantEntryModel {
            strategy: self.strategy,
            database_url: match self.database_url {
                Some(ref s) => Some(s@),
                None => None,
            },
            schema_name: match self.schema_name {
                Some(ref s) => Some(s@),
                None => None,
            },
        }
    }
}

/// One row of the tenant registry as stored.
pub struct TenantRow {
    pub id: String,
    pub strategy: String,
    pub database_url: Option<String>,
    pub schema_name: Option<String>,
}

/// The in-memory tenant registry; lookup is by tenant id.
pub struct TenantRegistry {
    pub entries: Vec<(String, TenantEntry)>,
}

/// The first entry with the given id.
pub open spec fn spec_registry_get(entries: Seq<(String, TenantEntry)>, id: Seq<char>) -> Option<
    TenantEntry,
>
    decreases entries.len(),
{
    if entries.len() == 0 {
        None
    } else if entries[0].0@ == id {
        Some(entries[0].1)
    } else {
        spec_registry_get(entries.drop_first(), id)
    }
}

impl TenantRegistry {
    /// An empty registry.
    pub fn new() -> (r: TenantRegistry)
        ensures
            r.entries@.len() == 0,
    {
        TenantRegistry { entries: Vec::new() }
    }

    /// Look up a tenant.
    pub fn get(&self, tenant_id: &str) -> (r: Option<&TenantEntry>)
        ensures
            r is Some <==> spec_registry_get(self.entries@, tenant_id@) is Some,
            r is Some ==> *r->0 == spec_registry_get(self.entries@, tenant_id@)->0,
    {
        let n = self.entries.len();
        let mut i: usize = 0;
        proof {
            assert(self.entries@.skip(0) =~= self.entries@);
        }
        while i < n
            invariant
                i <= n,
                n == self.entries@.len(),
                spec_registry_get(self.entries@, tenant_id@) == spec_registry_get(
                    self.entries@.skip(i as int),
                    tenant_id@,
                ),
            decreases n - i,
        {
            proof {
                assert(self.entries@.skip(i as int).drop_first() =~= self.entries@.skip(
                    i as int + 1,
                ));
                assert(self.entries@.skip(i as int)[0] == self.entries@[i as int]);
            }
            if str_eq(self.entries[i].0.as_str(), tenant_id) {
                return Some(&self.entries[i].1);
            }
            i += 1;
        }
        proof {
            assert(self.entries@.skip(n as int) =~= Seq::<(String, TenantEntry)>::empty());
        }
        None
    }

    pub fn is_empty(&self) -> (r: bool)
        ensures
            r == (self.entries@.len() == 0),
    {
        self.entries.len() == 0
    }
}

/// Whether a registry row satisfies its strategy's requirements: a
/// database tenant needs a database URL, a schema tenant a schema name.
pub open spec fn spec_row_usable(strategy: TenantStrategy, url: Option<Seq<char>>, schema: Option<
    Seq<char>,
>) -> bool {
    match strategy {
        TenantStrategy::Database => url matches Some(u) && u.len() > 0,
        TenantStrategy::Schema => schema matches Some(s) && s.len() > 0,
        TenantStrategy::Rls => true,
    }
}

pub open spec fn view_opt_string(o: Option<String>) -> Option<Seq<char>> {
    match o {
        Some(s) => Some(s@),
        None => None,
    }
}

/// Build the registry from stored rows: a row with an unknown strategy
/// fails the load; a row that violates its strategy's requirements is
/// skipped; empty URL and schema fields read as absent.
pub open spec fn spec_registry_rows(rows: Seq<TenantRow>) -> Seq<(Seq<char>, TenantEntryModel)>
    decreases rows.len(),
{
    if rows.len() == 0 {
        Seq::empty()
    } else {
        let row = rows[0];
        let rest = spec_registry_rows(rows.drop_first());
        match spec_parse_strategy(row.strategy@) {
            Some(strategy) => if spec_row_usable(
                strategy,
                view_opt_string(row.database_url),
                view_opt_string(row.schema_name),
            ) {
                seq![
                    (
                        row.id@,
                        TenantEntryModel {
                            strategy,
                            database_url: spec_nonempty(view_opt_string(row.database_url)),
                            schema_name: spec_nonempty(view_opt_string(row.schema_name)),
                        },
                    ),
                ] + rest
            } else {
                rest
            },
            None => rest,
        }
    }
}

/// An optional string with the empty string read as absent.
pub open spec fn spec_nonempty(o: Option<Seq<char>>) -> Option<Seq<char>> {
    match o {
        Some(s) => if s.len() > 0 {
            Some(s)
        } else {
            None
        },
        None => None,
    }
}

pub open spec fn view_registry(entries: Seq<(String, TenantEntry)>) -> Seq<
    (Seq<char>, TenantEntryModel),
> {
    Seq::new(entries.len(), |i: int| (entries[i].0@, entries[i].1@))
}

/// Whether every row names a known strategy.
pub open spec fn spec_rows_strategies_ok(rows: Seq<TenantRow>) -> bool {
    forall|i: int|
        0 <= i < rows.len() ==> spec_parse_strategy((#[trigger] rows[i]).strategy@) is Some
}

fn nonempty_opt(o: &Option<String>) -> (r: Option<String>)
    ensures
        view_opt_string(r) == spec_nonempty(view_opt_string(*o)),
{
    match o {
        Some(s) => {
            if s.as_str().unicode_len() > 0 {
                Some(s.clone())
            } else {
                None
            }
        },
        None => None,
    }
}

/// Build the registry from the stored rows. A row naming an unknown
/// strategy fails the whole load; rows that violate their strategy's
/// requirements are skipped.
#[verifier::loop_isolation(false)]
pub fn registry_from_rows(rows: Vec<TenantRow>) -> (r: Result<TenantRegistry, AppError>)
    ensures
        r is Ok <==> spec_rows_strategies_ok(rows@),
        r is Ok ==> view_registry(r->Ok_0.entries@) == spec_registry_rows(rows@),
        r is Err ==> r->Err_0 is BadRequest,
{
    let n = rows.len();
    let mut entries: Vec<(String, TenantEntry)> = Vec::new();
    let mut i: usize = 0;
    proof {
        assert(rows@.skip(0) =~= rows@);
        assert(view_registry(entries@) =~= Seq::<(Seq<char>, TenantEntryModel)>::empty());
        assert(Seq::<(Seq<char>, TenantEntryModel)>::empty() + spec_registry_rows(rows@)
            =~= spec_registry_rows(rows@));
    }
    while i < n
        invariant
            i <= n,
            n == rows@.len(),
            forall|j: int|
                0 <= j < i ==> spec_parse_strategy((#[trigger] rows@[j]).strategy@) is Some,
            view_registry(entries@) + spec_registry_rows(rows@.skip(i as int))
                == spec_registry_rows(rows@),
        decreases n - i,
    {
        proof {
            assert(rows@.skip(i as int).drop_first() =~= rows@.skip(i as int + 1));
            assert(rows@.skip(i as int)[0] == rows@[i as int]);
        }
        let ghost prev = view_registry(entries@);
        let row = &rows[i];
        let strategy = match TenantStrategy::parse(row.strategy.as_str()) {
            Ok(s) => s,
            Err(e) => {
                return Err(e);
            },
        };
        let url_ok = match &row.database_url {
            Some(u) => u.as_str().unicode_len() > 0,
            None => false,
        };
        let schema_ok = match &row.schema_name {
            Some(s) => s.as_str().unicode_len() > 0,
            None => false,
        };
        let usable = match strategy {
            TenantStrategy::Database => url_ok,
            TenantStrategy::Schema => schema_ok,
            TenantStrategy::Rls => true,
        };
        if usable {
            let entry = TenantEntry {
                strategy,
                database_url: nonempty_opt(&row.database_url),
                schema_name: nonempty_opt(&row.schema_name),
            };
            entries.push((row.id.clone(), entry));
            proof {
                assert(view_registry(entries@) =~= prev + seq![
                    (
                        rows@[i as int].id@,
                        TenantEntryModel {
                            strategy,
                            database_url: spec_nonempty(
                                view_opt_string(rows@[i as int].database_url),
                            ),
                            schema_name: spec_nonempty(
                                view_opt_string(rows@[i as int].schema_name),
                            ),
                        },
                    ),
                ]);
            }
        }
        i += 1;
    }
    proof {
        assert(rows@.skip(n as int) =~= Seq::<TenantRow>::empty());
        assert(view_registry(entries@) + Seq::<(Seq<char>, TenantEntryModel)>::empty()
            =~= view_registry(entries@));
    }
    Ok(TenantRegistry { entries })
}

/// The tenant id of a request, as taken from the tenant header by the
/// HTTP layer; absent or blank reads as no tenant.
pub struct TenantId(pub Option<String>);

} // verus!
