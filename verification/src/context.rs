//! Execution-context selection: map the tenant of a request to the
//! physical context its statements run in — a pool with an optional schema
//! override, or a pinned connection with the session-local tenant id set
//! before any statement.

use vstd::prelude::*;
use vstd::string::*;

use crate::error::AppError;
use crate::tenant::{
    TenantEntry,
    TenantRegistry,
    TenantStrategy,
    spec_registry_get,
};

verus! {

/// Which pool a context draws from.
pub enum PoolChoice {
    /// The central pool from the deployment's database URL.
    Central,
    /// The tenant's own pool, created from the given URL and memoized
    /// under the tenant id.
    Tenant { tenant_id: String, database_url: String },
}

/// The execution context of a request.
pub enum TenantContext {
    /// Statements run on a pool; reads of configuration go to the config
    /// pool named here.
    Pool {
        pool: PoolChoice,
        schema_override: Option<String>,
        /// Configuration lives in the tenant's database under the
        /// database strategy, centrally otherwise.
        config_from_tenant_pool: bool,
        package_cache_key: String,
    },
    /// Statements run on one pinned connection on which
    /// `SET LOCAL app.tenant_id = <tenant>` has been issued first.
    Rls { tenant_id: String, pool: PoolChoice, package_cache_key: String },
}

/// The resolved-model cache key of a request: the package id, extended
/// with the tenant id under the database strategy, where each tenant may
/// observe a different materialized schema.
pub open spec fn spec_cache_key(package_id: Seq<char>, entry: crate::tenant::TenantEntryModel, tenant_id: Seq<char>) -> Seq<char> {
    match entry.strategy {
        TenantStrategy::Database => package_id + ":"@ + tenant_id,
        _ => package_id,
    }
}

/// Whether an entry satisfies its strategy's requirement and can serve.
pub open spec fn spec_entry_servable(e: crate::tenant::TenantEntryModel) -> bool {
    match e.strategy {
        TenantStrategy::Database => e.database_url is Some,
        TenantStrategy::Schema => e.schema_name is Some,
        TenantStrategy::Rls => true,
    }
}

/// Resolve the execution context of a request. The tenant header is
/// required; an unknown tenant is not found; each strategy yields its
/// context: the database strategy the tenant's own pool, the schema
/// strategy the shared pool with a schema override, and row-level
/// security a pinned connection carrying the tenant id.
pub fn resolve_tenant_context(
    registry: &TenantRegistry,
    tenant_id_opt: Option<&str>,
    package_id: &str,
) -> (r: Result<TenantContext, AppError>)
    ensures
        (tenant_id_opt matches Some(t) && t@.len() > 0 && (spec_registry_get(
            registry.entries@,
            t@,
        ) matches Some(e) && spec_entry_servable(e@))) <==> r is Ok,
        r is Err ==> (r->Err_0 is BadRequest || r->Err_0 is NotFound),
        (match tenant_id_opt {
            Some(t) => t@.len() == 0,
            None => true,
        }) ==> r is Err && r->Err_0 is BadRequest,
        r is Ok ==> {
            let t = tenant_id_opt->0;
            let entry = spec_registry_get(registry.entries@, t@)->0@;
            match entry.strategy {
                TenantStrategy::Database => r->Ok_0 matches TenantContext::Pool {
                    pool,
                    schema_override,
                    config_from_tenant_pool,
                    package_cache_key,
                } && (pool matches PoolChoice::Tenant { tenant_id, database_url } && tenant_id@
                    == t@ && Some(database_url@) == entry.database_url) && schema_override is None
                    && config_from_tenant_pool && package_cache_key@ == package_id@ + ":"@ + t@,
                TenantStrategy::Schema => r->Ok_0 matches TenantContext::Pool {
                    pool,
                    schema_override,
                    config_from_tenant_pool,
                    package_cache_key,
                } && (match entry.schema_name {
                    Some(sch) => schema_override matches Some(s) && s@ == sch,
                    None => false,
                }) && !config_from_tenant_pool && package_cache_key@ == package_id@ && (match entry
                    .database_url {
                    Some(u) => pool matches PoolChoice::Tenant { tenant_id, database_url }
                        && tenant_id@ == t@ && database_url@ == u,
                    None => pool is Central,
                }),
                TenantStrategy::Rls => r->Ok_0 matches TenantContext::Rls {
                    tenant_id,
                    pool,
                    package_cache_key,
                } && tenant_id@ == t@ && package_cache_key@ == package_id@ && (match entry
                    .database_url {
                    Some(u) => pool matches PoolChoice::Tenant {
                        tenant_id: pt,
                        database_url,
                    } && pt@ == t@ && database_url@ == u,
                    None => pool is Central,
                }),
            }
        },
{
    let tenant_id = match tenant_id_opt {
        Some(t) => {
            if t.unicode_len() == 0 {
                return Err(AppError::BadRequest("X-Tenant-ID header is required".to_owned()));
            }
            t
        },
        None => {
            return Err(AppError::BadRequest("X-Tenant-ID header is required".to_owned()));
        },
    };
    let entry = match registry.get(tenant_id) {
        Some(e) => e,
        None => {
            let mut m = "tenant not found: ".to_owned();
            m.append(tenant_id);
            return Err(AppError::NotFound(m));
        },
    };
    match entry.strategy {
        TenantStrategy::Database => {
            let url = match &entry.database_url {
                Some(u) => u.clone(),
                None => {
                    let mut m = "tenant ".to_owned();
                    m.append(tenant_id);
                    m.append(": strategy database requires database_url");
                    return Err(AppError::BadRequest(m));
                },
            };
            let mut key = package_id.to_owned();
            key.append(":");
            key.append(tenant_id);
            Ok(
                TenantContext::Pool {
                    pool: PoolChoice::Tenant {
                        tenant_id: tenant_id.to_owned(),
                        database_url: url,
                    },
                    schema_override: None,
                    config_from_tenant_pool: true,
                    package_cache_key: key,
                },
            )
        },
        TenantStrategy::Schema => {
            let schema = match &entry.schema_name {
                Some(s) => s.clone(),
                None => {
                    let mut m = "tenant ".to_owned();
                    m.append(tenant_id);
                    m.append(": strategy schema requires schema_name");
                    return Err(AppError::BadRequest(m));
                },
            };
            let pool = match &entry.database_url {
                Some(u) => PoolChoice::Tenant {
                    tenant_id: tenant_id.to_owned(),
                    database_url: u.clone(),
                },
                None => PoolChoice::Central,
            };
            Ok(
                TenantContext::Pool {
                    pool,
                    schema_override: Some(schema),
                    config_from_tenant_pool: false,
                    package_cache_key: package_id.to_owned(),
                },
            )
        },
        TenantStrategy::Rls => {
            let pool = match &entry.database_url {
                Some(u) => PoolChoice::Tenant {
                    tenant_id: tenant_id.to_owned(),
                    database_url: u.clone(),
                },
                None => PoolChoice::Central,
            };
            Ok(
                TenantContext::Rls {
                    tenant_id: tenant_id.to_owned(),
                    pool,
                    package_cache_key: package_id.to_owned(),
                },
            )
        },
    }
}

/// Isolation law for the database strategy: two different tenants never
/// share a pool key or a model cache key, so rows created through one are
/// reached only through its own pool, and each tenant observes its own
/// materialized schema.
pub proof fn lemma_database_tenants_isolated(
    package_id: Seq<char>,
    e1: crate::tenant::TenantEntryModel,
    e2: crate::tenant::TenantEntryModel,
    t1: Seq<char>,
    t2: Seq<char>,
)
    requires
        t1 != t2,
        e1.strategy is Database,
        e2.strategy is Database,
    ensures
        spec_cache_key(package_id, e1, t1) != spec_cache_key(package_id, e2, t2),
{
    reveal_strlit(":");
    let k1 = spec_cache_key(package_id, e1, t1);
    let k2 = spec_cache_key(package_id, e2, t2);
    if k1 == k2 {
        assert(t1 =~= t2) by {
            assert(k1.len() == package_id.len() + 1 + t1.len());
            assert(k2.len() == package_id.len() + 1 + t2.len());
            assert(forall|i: int|
                0 <= i < t1.len() ==> #[trigger] t1[i] == k1[package_id.len() + 1 + i]);
            assert(forall|i: int|
                0 <= i < t2.len() ==> #[trigger] t2[i] == k2[package_id.len() + 1 + i]);
        }
    }
}

} // verus!
