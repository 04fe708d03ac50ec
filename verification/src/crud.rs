//! CRUD planning: every handler operation becomes a statement plan built
//! from the resolved model, with the request-level limits applied. The
//! plans run outside, against a pool or a pinned connection.

use vstd::prelude::*;

use crate::error::AppError;
use crate::ids::{parse_i64, spec_parse_i64, uuid_canon_of, uuid_canonical};
use crate::json::{Json, JsonValue, view_json};
use crate::resolved::{PkType, ResolvedEntity, ResolvedModel, view_strs};
use crate::sqlgen::{
    BodyMap,
    QueryBuf,
    body_get,
    spec_body_get,
    spec_clamp_limit,
    spec_delete,
    spec_insert,
    spec_insert_params,
    spec_list_params,
    spec_select_by_column_in,
    spec_select_by_id,
    spec_select_list,
    spec_update,
    spec_update_params,
    entity_wf,
    view_body,
    view_json_seq_of,
    view_opt_str,
};
use crate::strutil::str_eq;

verus! {

/// The row limit a list request runs with: the default of 100 when absent,
/// and never more than 1000.
pub open spec fn spec_effective_limit(limit: Option<u32>) -> u32 {
    let l = match limit {
        Some(l) => l,
        None => 100u32,
    };
    if l > 1000 {
        1000u32
    } else {
        l
    }
}

/// The largest number of items a bulk request may carry.
pub open spec fn spec_bulk_limit() -> int {
    100
}

pub struct CrudService;

impl CrudService {
    /// Plan a list: filters over recognized columns, ordered by primary
    /// key, the limit defaulted to 100 and clamped to 1000.
    pub fn list(
        entity: &ResolvedEntity,
        filters: &BodyMap,
        limit: Option<u32>,
        offset: Option<u32>,
        schema_override: Option<&str>,
    ) -> (q: QueryBuf)
        requires
            entity_wf(entity@),
        ensures
            q.sql@ == spec_select_list(
                entity@,
                view_body(filters@),
                Some(spec_effective_limit(limit)),
                Some(
                    match offset {
                        Some(o) => o,
                        None => 0u32,
                    },
                ),
                view_opt_str(schema_override),
            ),
            view_json_seq_of(q.params@) == spec_list_params(entity@, view_body(filters@)),
    {
        let l: u32 = match limit {
            Some(l) => l,
            None => 100,
        };
        let eff: u32 = if l > 1000 {
            1000
        } else {
            l
        };
        let off: u32 = match offset {
            Some(o) => o,
            None => 0,
        };
        proof {
            assert(spec_clamp_limit(eff) == eff as int);
        }
        crate::sqlgen::select_list(entity, filters, Some(eff), Some(off), schema_override)
    }

    /// Plan a single-query list with its attachments inlined, under the
    /// same limit default and clamp as a plain list.
    pub fn list_with_includes(
        entity: &ResolvedEntity,
        filters: &BodyMap,
        limit: Option<u32>,
        offset: Option<u32>,
        incs: &Vec<crate::sqlgen::IncludeSelect<'_>>,
        schema_override: Option<&str>,
    ) -> (q: QueryBuf)
        requires
            entity_wf(entity@),
        ensures
            q.sql@ == crate::sqlgen::spec_select_list_with_includes(
                entity@,
                view_body(filters@),
                Some(spec_effective_limit(limit)),
                Some(
                    match offset {
                        Some(o) => o,
                        None => 0u32,
                    },
                ),
                Seq::new(incs@.len(), |i: int| incs@[i]@),
                view_opt_str(schema_override),
            ),
            view_json_seq_of(q.params@) == crate::sqlgen::spec_filter_parts(
                entity@.columns,
                view_body(filters@),
                1,
                "main."@,
            ).1,
    {
        let l: u32 = match limit {
            Some(l) => l,
            None => 100,
        };
        let eff: u32 = if l > 1000 {
            1000
        } else {
            l
        };
        let off: u32 = match offset {
            Some(o) => o,
            None => 0,
        };
        proof {
            assert(spec_clamp_limit(eff) == eff as int);
        }
        crate::sqlgen::select_list_with_includes(
            entity,
            filters,
            Some(eff),
            Some(off),
            incs,
            schema_override,
        )
    }

    /// Plan a read by id: the select-by-id statement with the id bound.
    pub fn read(entity: &ResolvedEntity, id: &JsonValue, schema_override: Option<&str>) -> (q:
        QueryBuf)
        requires
            entity_wf(entity@),
        ensures
            q.sql@ == spec_select_by_id(entity@, view_opt_str(schema_override)),
            view_json_seq_of(q.params@) == seq![view_json(*id)],
    {
        let q0 = crate::sqlgen::select_by_id(entity, schema_override);
        let mut params: Vec<JsonValue> = Vec::new();
        params.push(id.deep_copy());
        proof {
            assert(view_json_seq_of(params@) =~= seq![view_json(*id)]);
        }
        QueryBuf { sql: q0.sql, params }
    }

    /// Plan a create: the insert statement, with the primary key included
    /// exactly when the body provides it, and the tenant column appended
    /// under row-level security.
    pub fn create(
        entity: &ResolvedEntity,
        body: &BodyMap,
        schema_override: Option<&str>,
        rls_tenant_id: Option<&str>,
    ) -> (q: QueryBuf)
        requires
            entity_wf(entity@),
        ensures
            q.sql@ == spec_insert(
                entity@,
                view_body(body@),
                spec_body_get(view_body(body@), entity@.pk_columns[0]) is Some,
                view_opt_str(schema_override),
                view_opt_str(rls_tenant_id),
            ),
            view_json_seq_of(q.params@) == spec_insert_params(
                entity@,
                view_body(body@),
                spec_body_get(view_body(body@), entity@.pk_columns[0]) is Some,
                view_opt_str(rls_tenant_id),
            ),
    {
        proof {
            assert(entity@.pk_columns[0] == entity.pk_columns@[0]@);
        }
        let include_pk = match body_get(body, entity.pk_columns[0].as_str()) {
            Some(_) => true,
            None => false,
        };
        crate::sqlgen::insert(entity, body, include_pk, schema_override, rls_tenant_id)
    }

    /// Plan an update by id.
    pub fn update(
        entity: &ResolvedEntity,
        id: &JsonValue,
        body: &BodyMap,
        schema_override: Option<&str>,
    ) -> (q: QueryBuf)
        requires
            entity_wf(entity@),
        ensures
            q.sql@ == spec_update(entity@, view_body(body@), view_opt_str(schema_override)),
            view_json_seq_of(q.params@) == spec_update_params(
                entity@,
                view_json(*id),
                view_body(body@),
            ),
    {
        crate::sqlgen::update(entity, id, body, schema_override)
    }

    /// Plan a delete by id: the delete statement with the id bound.
    pub fn delete(entity: &ResolvedEntity, id: &JsonValue, schema_override: Option<&str>) -> (q:
        QueryBuf)
        requires
            entity_wf(entity@),
        ensures
            q.sql@ == spec_delete(entity@, view_opt_str(schema_override)),
            view_json_seq_of(q.params@) == seq![view_json(*id)],
    {
        let q0 = crate::sqlgen::delete(entity, schema_override);
        let mut params: Vec<JsonValue> = Vec::new();
        params.push(id.deep_copy());
        proof {
            assert(view_json_seq_of(params@) =~= seq![view_json(*id)]);
        }
        QueryBuf { sql: q0.sql, params }
    }

    /// Plan the batch fetch of related rows by key. An empty value list
    /// needs no query: it fetches nothing.
    pub fn fetch_where_column_in(
        entity: &ResolvedEntity,
        column_name: &str,
        values: &Vec<JsonValue>,
        schema_override: Option<&str>,
    ) -> (r: Option<QueryBuf>)
        requires
            entity_wf(entity@),
        ensures
            r is Some <==> values@.len() > 0,
            r is Some ==> r->0.sql@ == spec_select_by_column_in(
                entity@,
                column_name@,
                values@.len() as int,
                view_opt_str(schema_override),
            ),
            r is Some ==> view_json_seq_of(r->0.params@) == view_json_seq_of(values@),
    {
        if values.len() == 0 {
            None
        } else {
            Some(crate::sqlgen::select_by_column_in(entity, column_name, values, schema_override))
        }
    }

    /// Plan a bulk create: one insert per item, rejected with a validation
    /// error when more than 100 items are given.
    #[verifier::loop_isolation(false)]
    pub fn bulk_create(
        entity: &ResolvedEntity,
        items: &Vec<BodyMap>,
        schema_override: Option<&str>,
        rls_tenant_id: Option<&str>,
    ) -> (r: Result<Vec<QueryBuf>, AppError>)
        requires
            entity_wf(entity@),
        ensures
            r is Ok <==> items@.len() <= spec_bulk_limit(),
            r is Err ==> r->Err_0 is Validation,
            r is Ok ==> r->Ok_0@.len() == items@.len(),
            r is Ok ==> forall|i: int|
                0 <= i < items@.len() ==> (#[trigger] r->Ok_0@[i]).sql@ == spec_insert(
                    entity@,
                    view_body(items@[i]@),
                    spec_body_get(view_body(items@[i]@), entity@.pk_columns[0]) is Some,
                    view_opt_str(schema_override),
                    view_opt_str(rls_tenant_id),
                ),
            r is Ok ==> forall|i: int|
                0 <= i < items@.len() ==> view_json_seq_of(
                    (#[trigger] r->Ok_0@[i]).params@,
                ) == spec_insert_params(
                    entity@,
                    view_body(items@[i]@),
                    spec_body_get(view_body(items@[i]@), entity@.pk_columns[0]) is Some,
                    view_opt_str(rls_tenant_id),
                ),
    {
        if items.len() > 100 {
            return Err(AppError::Validation("bulk create limited to 100 items".to_owned()));
        }
        let n = items.len();
        let mut out: Vec<QueryBuf> = Vec::new();
        let mut i: usize = 0;
        while i < n
            invariant
                i <= n,
                n == items@.len(),
                out@.len() == i,
                forall|j: int|
                    0 <= j < i ==> (#[trigger] out@[j]).sql@ == spec_insert(
                        entity@,
                        view_body(items@[j]@),
                        spec_body_get(view_body(items@[j]@), entity@.pk_columns[0]) is Some,
                        view_opt_str(schema_override),
                        view_opt_str(rls_tenant_id),
                    ),
                forall|j: int|
                    0 <= j < i ==> view_json_seq_of(
                        (#[trigger] out@[j]).params@,
                    ) == spec_insert_params(
                        entity@,
                        view_body(items@[j]@),
                        spec_body_get(view_body(items@[j]@), entity@.pk_columns[0]) is Some,
                        view_opt_str(rls_tenant_id),
                    ),
            decreases n - i,
        {
            let q = Self::create(entity, &items[i], schema_override, rls_tenant_id);
            out.push(q);
            i += 1;
        }
        Ok(out)
    }

    /// Plan a bulk update: one update per item, keyed by each item's
    /// primary-key value; rejected with a validation error when more than
    /// 100 items are given or an item omits the key.
    #[verifier::loop_isolation(false)]
    pub fn bulk_update(
        entity: &ResolvedEntity,
        items: &Vec<BodyMap>,
        schema_override: Option<&str>,
    ) -> (r: Result<Vec<QueryBuf>, AppError>)
        requires
            entity_wf(entity@),
        ensures
            r is Ok <==> (items@.len() <= spec_bulk_limit() && forall|i: int|
                0 <= i < items@.len() ==> spec_body_get(
                    view_body((#[trigger] items@[i])@),
                    entity@.pk_columns[0],
                ) is Some),
            r is Err ==> r->Err_0 is Validation,
            r is Ok ==> r->Ok_0@.len() == items@.len(),
            r is Ok ==> forall|i: int|
                0 <= i < items@.len() ==> (#[trigger] r->Ok_0@[i]).sql@ == spec_update(
                    entity@,
                    view_body(items@[i]@),
                    view_opt_str(schema_override),
                ),
            r is Ok ==> forall|i: int|
                0 <= i < items@.len() ==> view_json_seq_of(
                    (#[trigger] r->Ok_0@[i]).params@,
                ) == spec_update_params(
                    entity@,
                    spec_body_get(view_body(items@[i]@), entity@.pk_columns[0])->0,
                    view_body(items@[i]@),
                ),
    {
        if items.len() > 100 {
            return Err(AppError::Validation("bulk update limited to 100 items".to_owned()));
        }
        proof {
            assert(entity@.pk_columns[0] == entity.pk_columns@[0]@);
        }
        let pk = entity.pk_columns[0].as_str();
        let n = items.len();
        let mut out: Vec<QueryBuf> = Vec::new();
        let mut i: usize = 0;
        while i < n
            invariant
                i <= n,
                n == items@.len(),
                pk@ == entity@.pk_columns[0],
                out@.len() == i,
                forall|j: int|
                    0 <= j < i ==> spec_body_get(
                        view_body((#[trigger] items@[j])@),
                        entity@.pk_columns[0],
                    ) is Some,
                forall|j: int|
                    0 <= j < i ==> (#[trigger] out@[j]).sql@ == spec_update(
                        entity@,
                        view_body(items@[j]@),
                        view_opt_str(schema_override),
                    ),
                forall|j: int|
                    0 <= j < i ==> view_json_seq_of(
                        (#[trigger] out@[j]).params@,
                    ) == spec_update_params(
                        entity@,
                        spec_body_get(view_body(items@[j]@), entity@.pk_columns[0])->0,
                        view_body(items@[j]@),
                    ),
            decreases n - i,
        {
            let id = match body_get(&items[i], pk) {
                Some(v) => v.deep_copy(),
                None => {
                    let mut m = "each item must have '".to_owned();
                    m.append(pk);
                    m.append("'");
                    return Err(AppError::Validation(m));
                },
            };
            let q = Self::update(entity, &id, &items[i], schema_override);
            out.push(q);
            i += 1;
        }
        Ok(out)
    }
}

/// The row id a path segment denotes, for each key kind: a UUID in its
/// canonical form, a 64-bit integer, or the text itself.
pub open spec fn spec_parse_id(s: Seq<char>, pk: PkType) -> Option<Json> {
    match pk {
        PkType::Uuid => match uuid_canon_of(s) {
            Some(c) => Some(Json::Str(c)),
            None => None,
        },
        PkType::BigInt => match spec_parse_i64(s) {
            Some(n) => Some(Json::Int(n as int)),
            None => None,
        },
        PkType::Int => match spec_parse_i64(s) {
            Some(n) => Some(Json::Int(n as int)),
            None => None,
        },
        PkType::Text => Some(Json::Str(s)),
    }
}

/// Parse a path id for an entity's key kind; a value that does not parse
/// is a client error.
pub fn parse_id(id_str: &str, pk_type: &PkType) -> (r: Result<JsonValue, AppError>)
    ensures
        r is Ok <==> spec_parse_id(id_str@, *pk_type) is Some,
        r is Ok ==> view_json(r->Ok_0) == spec_parse_id(id_str@, *pk_type)->0,
        r is Err ==> r->Err_0 is BadRequest,
{
    match pk_type {
        PkType::Uuid => {
            match uuid_canonical(id_str) {
                Some(c) => Ok(JsonValue::Str(c)),
                None => Err(AppError::BadRequest("invalid uuid".to_owned())),
            }
        },
        PkType::BigInt => {
            match parse_i64(id_str) {
                Some(n) => Ok(JsonValue::Int(n)),
                None => Err(AppError::BadRequest("invalid id".to_owned())),
            }
        },
        PkType::Int => {
            match parse_i64(id_str) {
                Some(n) => Ok(JsonValue::Int(n)),
                None => Err(AppError::BadRequest("invalid id".to_owned())),
            }
        },
        PkType::Text => Ok(JsonValue::Str(id_str.to_owned())),
    }
}

/// A request body must be a JSON object; its pairs become the body map.
pub fn body_to_map(value: JsonValue) -> (r: Result<BodyMap, AppError>)
    ensures
        r is Ok <==> view_json(value) is Obj,
        r is Ok ==> view_body(r->Ok_0@) == view_json(value)->Obj_0,
        r is Err ==> r->Err_0 is BadRequest,
{
    proof {
        crate::json::lemma_view_ctors(value);
    }
    match value {
        JsonValue::Obj(pairs) => Ok(pairs),
        _ => Err(AppError::BadRequest("body must be a JSON object".to_owned())),
    }
}

/// How a filter string binds for a column: parsed as a UUID for UUID
/// columns, as an integer for integer columns, as a boolean for boolean
/// columns; otherwise, or when parsing fails, as text.
pub open spec fn spec_query_value(e: crate::resolved::EntityModel, col: Seq<char>, s: Seq<char>) -> Json {
    let info = crate::sqlgen::spec_col_named(e.columns, col);
    let is_uuid = (info matches Some(c) && (c.pk_type matches Some(PkType::Uuid)
        || (c.pg_type matches Some(t) && crate::strutil::spec_has_substring(
            crate::case::lower_seq(t),
            "uuid"@,
        ))));
    let is_int = (info matches Some(c) && ((c.pk_type matches Some(PkType::BigInt))
        || (c.pk_type matches Some(PkType::Int)) || (c.pg_type matches Some(t) && (
        crate::strutil::spec_has_substring(crate::case::lower_seq(t), "int"@)
            || crate::strutil::spec_has_substring(crate::case::lower_seq(t), "serial"@)))));
    let is_bool = (info matches Some(c) && (c.pg_type matches Some(t)
        && crate::strutil::spec_starts_with(crate::case::lower_seq(t), "bool"@)));
    if is_uuid && uuid_canon_of(s) is Some {
        Json::Str(uuid_canon_of(s)->0)
    } else if is_int && spec_parse_i64(s) is Some {
        Json::Int(spec_parse_i64(s)->0 as int)
    } else if is_bool && crate::case::lower_seq(s) == "true"@ {
        Json::Bool(true)
    } else if is_bool && crate::case::lower_seq(s) == "false"@ {
        Json::Bool(false)
    } else {
        Json::Str(s)
    }
}

/// The parsed query parameters of a list request.
pub struct ListParams {
    pub limit: Option<u32>,
    pub offset: Option<u32>,
    pub include_names: Vec<String>,
    pub filters: BodyMap,
}

/// The value of the last occurrence of a query parameter.
pub open spec fn spec_last_param(params: Seq<(String, String)>, key: Seq<char>) -> Option<Seq<char>>
    decreases params.len(),
{
    if params.len() == 0 {
        None
    } else if params.last().0@ == key {
        Some(params.last().1@)
    } else {
        spec_last_param(params.drop_last(), key)
    }
}

/// The filters of a list request: every parameter other than the reserved
/// `limit`, `offset` and `include` whose snake_case form names a column,
/// with its value interpreted for that column.
pub open spec fn spec_list_filters(
    e: crate::resolved::EntityModel,
    params: Seq<(String, String)>,
) -> Seq<(Seq<char>, Json)>
    decreases params.len(),
{
    if params.len() == 0 {
        Seq::empty()
    } else {
        let k = params[0].0@;
        let v = params[0].1@;
        let rest = spec_list_filters(e, params.drop_first());
        if k == "limit"@ || k == "offset"@ || k == "include"@ {
            rest
        } else {
            let col = crate::case::snake_of(k);
            if crate::sqlgen::spec_col_named(e.columns, col) is Some {
                seq![(col, spec_query_value(e, col, v))] + rest
            } else {
                rest
            }
        }
    }
}

/// Parse the query parameters of a list request: the limit and offset from
/// their last occurrence, the attachment names from the last `include`
/// list, and an equality filter for every other parameter whose
/// snake_case form names a column.
#[verifier::loop_isolation(false)]
pub fn parse_list_params(entity: &ResolvedEntity, params: &Vec<(String, String)>) -> (r: ListParams)
    ensures
        r.limit == (match spec_last_param(params@, "limit"@) {
            Some(v) => crate::ids::spec_parse_u32(v),
            None => None,
        }),
        r.offset == (match spec_last_param(params@, "offset"@) {
            Some(v) => crate::ids::spec_parse_u32(v),
            None => None,
        }),
        view_strs(r.include_names@) == (match spec_last_param(params@, "include"@) {
            Some(v) => crate::strutil::spec_csv_names(v),
            None => Seq::<Seq<char>>::empty(),
        }),
        view_body(r.filters@) == spec_list_filters(entity@, params@),
{
    let n = params.len();
    let mut limit: Option<u32> = None;
    let mut offset: Option<u32> = None;
    let mut include_names: Vec<String> = Vec::new();
    let ghost mut include_set = false;
    let mut filters: BodyMap = Vec::new();
    let mut i: usize = 0;
    proof {
        reveal_strlit("limit");
        reveal_strlit("offset");
        reveal_strlit("include");
        assert(params@.take(0) =~= Seq::<(String, String)>::empty());
        assert(params@.skip(0) =~= params@);
        crate::json::lemma_view_json_pairs(filters@);
        assert(view_body(filters@) =~= Seq::<(Seq<char>, Json)>::empty());
        assert(Seq::<(Seq<char>, Json)>::empty() + spec_list_filters(entity@, params@)
            =~= spec_list_filters(entity@, params@));
        assert(view_strs(include_names@) =~= Seq::<Seq<char>>::empty());
    }
    while i < n
        invariant
            i <= n,
            n == params@.len(),
            limit == (match spec_last_param(params@.take(i as int), "limit"@) {
                Some(v) => crate::ids::spec_parse_u32(v),
                None => None::<u32>,
            }),
            offset == (match spec_last_param(params@.take(i as int), "offset"@) {
                Some(v) => crate::ids::spec_parse_u32(v),
                None => None::<u32>,
            }),
            view_strs(include_names@) == (match spec_last_param(params@.take(i as int), "include"@) {
                Some(v) => crate::strutil::spec_csv_names(v),
                None => Seq::<Seq<char>>::empty(),
            }),
            view_body(filters@) + spec_list_filters(entity@, params@.skip(i as int))
                == spec_list_filters(entity@, params@),
        decreases n - i,
    {
        proof {
            crate::json::lemma_view_json_pairs(filters@);
            assert(params@.take(i as int + 1).drop_last() =~= params@.take(i as int));
            assert(params@.take(i as int + 1).last() == params@[i as int]);
            assert(params@.skip(i as int).drop_first() =~= params@.skip(i as int + 1));
            assert(params@.skip(i as int)[0] == params@[i as int]);
        }
        let ghost prev_filters = view_body(filters@);
        let k = params[i].0.as_str();
        let v = params[i].1.as_str();
        if str_eq(k, "limit") {
            limit = crate::ids::parse_u32(v);
        } else if str_eq(k, "offset") {
            offset = crate::ids::parse_u32(v);
        } else if str_eq(k, "include") {
            include_names = crate::strutil::split_csv_names(v);
        } else {
            let col = crate::case::to_snake_case(k);
            match crate::sqlgen::col_named(entity, col.as_str()) {
                Some(_) => {
                    let value = query_value_for_column(entity, col.as_str(), v);
                    filters.push((col, value));
                    proof {
                        crate::json::lemma_view_json_pairs(filters@);
                        assert(view_body(filters@) =~= prev_filters + seq![
                            (
                                crate::case::snake_of(params@[i as int].0@),
                                spec_query_value(
                                    entity@,
                                    crate::case::snake_of(params@[i as int].0@),
                                    params@[i as int].1@,
                                ),
                            ),
                        ]);
                    }
                },
                None => (),
            }
        }
        i += 1;
    }
    proof {
        assert(params@.take(n as int) =~= params@);
        assert(params@.skip(n as int) =~= Seq::<(String, String)>::empty());
        assert(view_body(filters@) + Seq::<(Seq<char>, Json)>::empty() =~= view_body(filters@));
    }
    ListParams { limit, offset, include_names, filters }
}

/// The first attachment of an entity with the given name.
pub open spec fn spec_find_attachment(
    incs: Seq<crate::resolved::IncludeSpec>,
    name: Seq<char>,
) -> Option<crate::resolved::IncludeSpec>
    decreases incs.len(),
{
    if incs.len() == 0 {
        None
    } else if incs[0].name@ == name {
        Some(incs[0])
    } else {
        spec_find_attachment(incs.drop_first(), name)
    }
}

/// Resolve the requested attachment names against an entity's attachment
/// graph and the model: each name must be an attachment of the entity,
/// and its related entity must stand in the model; an unknown name is a
/// client error.
#[verifier::loop_isolation(false)]
pub fn resolve_includes(
    model: &ResolvedModel,
    entity: &ResolvedEntity,
    names: &Vec<String>,
) -> (r: Result<Vec<(crate::resolved::IncludeSpec, usize)>, AppError>)
    ensures
        r is Ok <==> forall|i: int|
            0 <= i < names@.len() ==> {
                let inc = spec_find_attachment(entity.includes@, (#[trigger] names@[i])@);
                inc is Some && crate::resolved::spec_entity_by_path(
                    model.entities@,
                    inc->0.related_path_segment@,
                ) is Some
            },
        r is Ok ==> r->Ok_0@.len() == names@.len(),
        r is Ok ==> forall|i: int|
            0 <= i < names@.len() ==> {
                let pair = #[trigger] r->Ok_0@[i];
                &&& pair.0@ == spec_find_attachment(entity.includes@, names@[i]@)->0@
                &&& pair.1 < model.entities@.len()
                &&& model.entities@[pair.1 as int] == crate::resolved::spec_entity_by_path(
                    model.entities@,
                    spec_find_attachment(entity.includes@, names@[i]@)->0.related_path_segment@,
                )->0
            },
        r is Err ==> r->Err_0 is BadRequest,
{
    let n = names.len();
    let mut out: Vec<(crate::resolved::IncludeSpec, usize)> = Vec::new();
    let mut i: usize = 0;
    while i < n
        invariant
            i <= n,
            n == names@.len(),
            out@.len() == i,
            forall|j: int|
                0 <= j < i ==> {
                    let inc = spec_find_attachment(entity.includes@, (#[trigger] names@[j])@);
                    inc is Some && crate::resolved::spec_entity_by_path(
                        model.entities@,
                        inc->0.related_path_segment@,
                    ) is Some
                },
            forall|j: int|
                0 <= j < i ==> {
                    let pair = #[trigger] out@[j];
                    &&& pair.0@ == spec_find_attachment(entity.includes@, names@[j]@)->0@
                    &&& pair.1 < model.entities@.len()
                    &&& model.entities@[pair.1 as int] == crate::resolved::spec_entity_by_path(
                        model.entities@,
                        spec_find_attachment(entity.includes@, names@[j]@)->0.related_path_segment@,
                    )->0
                },
        decreases n - i,
    {
        let inc = match find_attachment(entity, names[i].as_str()) {
            Some(x) => x,
            None => {
                let mut m = "unknown include: ".to_owned();
                m.append(names[i].as_str());
                return Err(AppError::BadRequest(m));
            },
        };
        let idx = match crate::resolved::entity_index_by_path(
            model,
            inc.related_path_segment.as_str(),
        ) {
            Some(x) => x,
            None => {
                let mut m = "related entity not found: ".to_owned();
                m.append(inc.related_path_segment.as_str());
                return Err(AppError::BadRequest(m));
            },
        };
        let copy = inc.duplicate();
        out.push((copy, idx));
        i += 1;
    }
    Ok(out)
}

/// Find the first attachment with the given name.
#[verifier::loop_isolation(false)]
fn find_attachment<'a>(entity: &'a ResolvedEntity, name: &str) -> (r: Option<
    &'a crate::resolved::IncludeSpec,
>)
    ensures
        r is Some <==> spec_find_attachment(entity.includes@, name@) is Some,
        r is Some ==> *r->0 == spec_find_attachment(entity.includes@, name@)->0,
{
    let n = entity.includes.len();
    let mut i: usize = 0;
    proof {
        assert(entity.includes@.skip(0) =~= entity.includes@);
    }
    while i < n
        invariant
            i <= n,
            n == entity.includes@.len(),
            spec_find_attachment(entity.includes@, name@) == spec_find_attachment(
                entity.includes@.skip(i as int),
                name@,
            ),
        decreases n - i,
    {
        proof {
            assert(entity.includes@.skip(i as int).drop_first() =~= entity.includes@.skip(
                i as int + 1,
            ));
            assert(entity.includes@.skip(i as int)[0] == entity.includes@[i as int]);
        }
        if str_eq(entity.includes[i].name.as_str(), name) {
            return Some(&entity.includes[i]);
        }
        i += 1;
    }
    proof {
        assert(entity.includes@.skip(n as int) =~= Seq::<crate::resolved::IncludeSpec>::empty());
    }
    None
}

/// Interpret one query-parameter value for the column it filters.
pub fn query_value_for_column(entity: &ResolvedEntity, col: &str, s: &str) -> (r: JsonValue)
    ensures
        view_json(r) == spec_query_value(entity@, col@, s@),
{
    let info = crate::sqlgen::col_named(entity, col);
    let mut is_uuid = false;
    let mut is_int = false;
    let mut is_bool = false;
    match info {
        Some(c) => {
            match &c.pk_type {
                Some(PkType::Uuid) => {
                    is_uuid = true;
                },
                Some(PkType::BigInt) => {
                    is_int = true;
                },
                Some(PkType::Int) => {
                    is_int = true;
                },
                _ => (),
            }
            match &c.pg_type {
                Some(t) => {
                    let lower = crate::case::lower_ascii_str(t.as_str());
                    if crate::strutil::contains_substr(lower.as_str(), "uuid") {
                        is_uuid = true;
                    }
                    if crate::strutil::contains_substr(lower.as_str(), "int")
                        || crate::strutil::contains_substr(lower.as_str(), "serial") {
                        is_int = true;
                    }
                    if crate::strutil::starts_with(lower.as_str(), "bool") {
                        is_bool = true;
                    }
                },
                None => (),
            }
        },
        None => (),
    }
    if is_uuid {
        match uuid_canonical(s) {
            Some(c) => {
                return JsonValue::Str(c);
            },
            None => (),
        }
    }
    if is_int {
        match parse_i64(s) {
            Some(n) => {
                return JsonValue::Int(n);
            },
            None => (),
        }
    }
    if is_bool {
        let lower = crate::case::lower_ascii_str(s);
        if str_eq(lower.as_str(), "true") {
            return JsonValue::Bool(true);
        }
        if str_eq(lower.as_str(), "false") {
            return JsonValue::Bool(false);
        }
    }
    JsonValue::Str(s.to_owned())
}

} // verus!
