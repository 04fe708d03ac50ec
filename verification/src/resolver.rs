//! Resolution: turn a validated configuration into the resolved model.
//!
//! Resolution is a pure function of the configuration: its result is pinned
//! to the spec-level `spec_model`, so equal configurations yield equal
//! models with a stable entity order (the API-binding order).

use vstd::prelude::*;

use crate::case::lower_seq;
use crate::case::lower_ascii_str;
use crate::config::{
    ApiEntityConfig,
    ColumnConfig,
    ColumnTypeConfig,
    FullConfig,
    PrimaryKeyConfig,
    RelationshipConfig,
    SchemaConfig,
    TableConfig,
    spec_pk_names,
    spec_type_name,
};
use crate::error::ConfigError;
use crate::resolved::{
    ColumnInfo,
    ColumnModel,
    EntityModel,
    IncludeDirection,
    IncludeModel,
    IncludeSpec,
    PkType,
    ResolvedEntity,
    ResolvedModel,
    view_entities,
    view_strs,
};
use crate::strutil::{contains_char, contains_substr, spec_has_substring, spec_starts_with, starts_with, str_eq};
use crate::validator::{
    config_valid,
    default_schema_id,
    effective_schema_id,
    error_witnessed,
    has_schema_id,
    has_table_id,
    spec_default_schema_id,
    table_has_column_named,
    validate,
};

verus! {

/// The first table with the given id.
pub open spec fn spec_find_table(ts: Seq<TableConfig>, tid: Seq<char>) -> Option<TableConfig>
    decreases ts.len(),
{
    if ts.len() == 0 {
        None
    } else if ts[0].id@ == tid {
        Some(ts[0])
    } else {
        spec_find_table(ts.drop_first(), tid)
    }
}

/// The first schema with the given id.
pub open spec fn spec_find_schema(ss: Seq<SchemaConfig>, sid: Seq<char>) -> Option<SchemaConfig>
    decreases ss.len(),
{
    if ss.len() == 0 {
        None
    } else if ss[0].id@ == sid {
        Some(ss[0])
    } else {
        spec_find_schema(ss.drop_first(), sid)
    }
}

/// The name of the first column with the given id.
pub open spec fn spec_find_col_name(cs: Seq<ColumnConfig>, cid: Seq<char>) -> Option<Seq<char>>
    decreases cs.len(),
{
    if cs.len() == 0 {
        None
    } else if cs[0].id@ == cid {
        Some(cs[0].name@)
    } else {
        spec_find_col_name(cs.drop_first(), cid)
    }
}

/// The first column of the given table with the given name.
pub open spec fn spec_find_col_in_table(
    cs: Seq<ColumnConfig>,
    tid: Seq<char>,
    name: Seq<char>,
) -> Option<ColumnConfig>
    decreases cs.len(),
{
    if cs.len() == 0 {
        None
    } else if cs[0].table_id@ == tid && cs[0].name@ == name {
        Some(cs[0])
    } else {
        spec_find_col_in_table(cs.drop_first(), tid, name)
    }
}

/// The path segment of the last API binding for the given table. When a
/// table carries several bindings, the one declared last names its includes.
pub open spec fn spec_path_for_table(apis: Seq<ApiEntityConfig>, tid: Seq<char>) -> Option<
    Seq<char>,
>
    decreases apis.len(),
{
    if apis.len() == 0 {
        None
    } else if apis.last().entity_id@ == tid {
        Some(apis.last().path_segment@)
    } else {
        spec_path_for_table(apis.drop_last(), tid)
    }
}

/// The pg_type hint for SQL casts, assigned from the declared type name by
/// a case-insensitive match in fixed priority order: timestamptz, then
/// timestamp, date, uuid, numeric, then schema-qualified custom types.
pub open spec fn spec_pg_type(name: Seq<char>) -> Option<Seq<char>> {
    let lower = lower_seq(name);
    if lower == "timestamptz"@ || lower == "timestamp with time zone"@ {
        Some("timestamptz"@)
    } else if lower == "timestamp"@ || spec_starts_with(lower, "timestamp "@) {
        Some("timestamp"@)
    } else if lower == "date"@ {
        Some("date"@)
    } else if spec_has_substring(lower, "uuid"@) {
        Some("uuid"@)
    } else if spec_has_substring(lower, "numeric"@) {
        Some("numeric"@)
    } else if name.contains('.') {
        Some(name)
    } else {
        None
    }
}

/// The primary-key kind inferred from the declared type name, by
/// case-insensitive substring tests in fixed order.
pub open spec fn spec_pk_type_of(name: Seq<char>) -> PkType {
    let lower = lower_seq(name);
    if spec_has_substring(lower, "uuid"@) {
        PkType::Uuid
    } else if spec_has_substring(lower, "bigserial"@) || spec_has_substring(lower, "bigint"@) {
        PkType::BigInt
    } else if spec_has_substring(lower, "serial"@) || spec_has_substring(lower, "integer"@)
        || spec_has_substring(lower, "int"@) {
        PkType::Int
    } else {
        PkType::Text
    }
}

/// The model of one configured column within its entity.
pub open spec fn spec_column_model(
    col: ColumnConfig,
    pk_names: Seq<Seq<char>>,
    pkt: PkType,
) -> ColumnModel {
    ColumnModel {
        name: col.name@,
        pk_type: if pk_names.contains(col.name@) {
            Some(pkt)
        } else {
            None
        },
        nullable: col.nullable,
        has_default: col.default is Some,
        pg_type: spec_pg_type(spec_type_name(col.type_)),
    }
}

/// The models of the columns declared for a table, in declaration order.
pub open spec fn spec_table_columns(
    cs: Seq<ColumnConfig>,
    tid: Seq<char>,
    pk_names: Seq<Seq<char>>,
    pkt: PkType,
) -> Seq<ColumnModel>
    decreases cs.len(),
{
    if cs.len() == 0 {
        Seq::empty()
    } else {
        let rest = spec_table_columns(cs.drop_first(), tid, pk_names, pkt);
        if cs[0].table_id@ == tid {
            seq![spec_column_model(cs[0], pk_names, pkt)] + rest
        } else {
            rest
        }
    }
}

pub open spec fn has_column_model_named(cols: Seq<ColumnModel>, name: Seq<char>) -> bool {
    exists|i: int| 0 <= i < cols.len() && cols[i].name == name
}

pub open spec fn audit_column_model(name: Seq<char>, nullable: bool, has_default: bool) -> ColumnModel {
    ColumnModel {
        name: name,
        pk_type: None,
        nullable: nullable,
        has_default: has_default,
        pg_type: Some("timestamptz"@),
    }
}

/// The configured columns extended with the audit timestamps that the
/// migration engine injects, where the table does not declare them itself.
pub open spec fn spec_with_audit_columns(base: Seq<ColumnModel>) -> Seq<ColumnModel> {
    let b1 = if has_column_model_named(base, "created_at"@) {
        base
    } else {
        base.push(audit_column_model("created_at"@, false, true))
    };
    let b2 = if has_column_model_named(base, "updated_at"@) {
        b1
    } else {
        b1.push(audit_column_model("updated_at"@, false, true))
    };
    if has_column_model_named(base, "archived_at"@) {
        b2
    } else {
        b2.push(audit_column_model("archived_at"@, true, false))
    }
}

/// The attachments one relationship contributes to the table `our`: a
/// to-one attachment when `our` holds the foreign key, a to-many attachment
/// when the other side holds it. An attachment is produced only when both
/// join columns resolve and the related table has an API binding; its name
/// is that binding's path segment.
pub open spec fn spec_rel_contribution(
    c: FullConfig,
    rel: RelationshipConfig,
    our: Seq<char>,
) -> Seq<IncludeModel> {
    let from_col = spec_find_col_name(c.columns@, rel.from_column_id@);
    let to_col = spec_find_col_name(c.columns@, rel.to_column_id@);
    let from_path = spec_path_for_table(c.api_entities@, rel.from_table_id@);
    let to_path = spec_path_for_table(c.api_entities@, rel.to_table_id@);
    let to_one: Seq<IncludeModel> = if from_col is Some && to_col is Some && to_path is Some
        && rel.from_table_id@ == our {
        seq![
            IncludeModel {
                name: to_path->0,
                direction: IncludeDirection::ToOne,
                related_path_segment: to_path->0,
                our_key_column: from_col->0,
                their_key_column: to_col->0,
            },
        ]
    } else {
        Seq::empty()
    };
    let to_many: Seq<IncludeModel> = if from_col is Some && to_col is Some && from_path is Some
        && rel.to_table_id@ == our {
        seq![
            IncludeModel {
                name: from_path->0,
                direction: IncludeDirection::ToMany,
                related_path_segment: from_path->0,
                our_key_column: to_col->0,
                their_key_column: from_col->0,
            },
        ]
    } else {
        Seq::empty()
    };
    to_one + to_many
}

/// The attachments of the table `our`, scanning the relationships in order.
pub open spec fn spec_includes_rec(
    c: FullConfig,
    rels: Seq<RelationshipConfig>,
    our: Seq<char>,
) -> Seq<IncludeModel>
    decreases rels.len(),
{
    if rels.len() == 0 {
        Seq::empty()
    } else {
        spec_rel_contribution(c, rels[0], our) + spec_includes_rec(c, rels.drop_first(), our)
    }
}

pub open spec fn spec_includes_for(c: FullConfig, our: Seq<char>) -> Seq<IncludeModel> {
    spec_includes_rec(c, c.relationships@, our)
}

/// The table an API binding resolves to.
pub open spec fn spec_api_table(c: FullConfig, api: ApiEntityConfig) -> TableConfig {
    spec_find_table(c.tables@, api.entity_id@)->0
}

/// The model of the entity one API binding resolves to.
pub open spec fn spec_entity(c: FullConfig, api: ApiEntityConfig) -> EntityModel {
    let t = spec_api_table(c, api);
    let sid = effective_schema_id(t.schema_id, spec_default_schema_id(c));
    let sch = spec_find_schema(c.schemas@, sid)->0;
    let pk_names = spec_pk_names(t.primary_key);
    let pk_col = spec_find_col_in_table(c.columns@, t.id@, pk_names[0])->0;
    let pkt = spec_pk_type_of(spec_type_name(pk_col.type_));
    EntityModel {
        table_id: t.id@,
        schema_name: sch.name@,
        table_name: t.name@,
        path_segment: api.path_segment@,
        pk_columns: pk_names,
        pk_type: pkt,
        columns: spec_with_audit_columns(spec_table_columns(c.columns@, t.id@, pk_names, pkt)),
        operations: view_strs(api.operations@),
        sensitive_columns: view_strs(api.sensitive_columns@),
        includes: spec_includes_for(c, t.id@),
        validation: Seq::new(
            api.validation@.len(),
            |i: int| (api.validation@[i].0@, api.validation@[i].1@),
        ),
    }
}

/// The resolved model of a configuration: one entity per API binding, in
/// binding order.
pub open spec fn spec_model(c: FullConfig) -> Seq<EntityModel> {
    Seq::new(c.api_entities@.len(), |i: int| spec_entity(c, c.api_entities@[i]))
}

/// A configuration the resolver accepts: valid, and every bound table
/// declares at least one primary-key column.
pub open spec fn spec_resolvable(c: FullConfig) -> bool {
    &&& config_valid(c)
    &&& forall|i: int|
        0 <= i < c.api_entities@.len() ==> spec_pk_names(
            spec_api_table(c, #[trigger] c.api_entities@[i]).primary_key,
        ).len() > 0
}

pub(crate) proof fn lemma_find_table_some(ts: Seq<TableConfig>, tid: Seq<char>)
    ensures
        (spec_find_table(ts, tid) is Some) <==> exists|i: int| 0 <= i < ts.len() && ts[i].id@ == tid,
    decreases ts.len(),
{
    if ts.len() > 0 {
        lemma_find_table_some(ts.drop_first(), tid);
        if spec_find_table(ts, tid) is Some {
            if ts[0].id@ != tid {
                let i = choose|i: int|
                    0 <= i < ts.drop_first().len() && ts.drop_first()[i].id@ == tid;
                assert(ts[i + 1].id@ == tid);
            }
        } else {
            if exists|i: int| 0 <= i < ts.len() && ts[i].id@ == tid {
                let i = choose|i: int| 0 <= i < ts.len() && ts[i].id@ == tid;
                assert(i > 0);
                assert(ts.drop_first()[i - 1].id@ == tid);
            }
        }
    }
}

pub(crate) proof fn lemma_find_schema_some(ss: Seq<SchemaConfig>, sid: Seq<char>)
    ensures
        (spec_find_schema(ss, sid) is Some) <==> exists|i: int|
            0 <= i < ss.len() && ss[i].id@ == sid,
    decreases ss.len(),
{
    if ss.len() > 0 {
        lemma_find_schema_some(ss.drop_first(), sid);
        if spec_find_schema(ss, sid) is Some {
            if ss[0].id@ != sid {
                let i = choose|i: int|
                    0 <= i < ss.drop_first().len() && ss.drop_first()[i].id@ == sid;
                assert(ss[i + 1].id@ == sid);
            }
        } else {
            if exists|i: int| 0 <= i < ss.len() && ss[i].id@ == sid {
                let i = choose|i: int| 0 <= i < ss.len() && ss[i].id@ == sid;
                assert(i > 0);
                assert(ss.drop_first()[i - 1].id@ == sid);
            }
        }
    }
}

pub(crate) proof fn lemma_find_col_in_table_some(cs: Seq<ColumnConfig>, tid: Seq<char>, name: Seq<char>)
    ensures
        (spec_find_col_in_table(cs, tid, name) is Some) <==> exists|i: int|
            0 <= i < cs.len() && cs[i].table_id@ == tid && cs[i].name@ == name,
    decreases cs.len(),
{
    if cs.len() > 0 {
        lemma_find_col_in_table_some(cs.drop_first(), tid, name);
        if spec_find_col_in_table(cs, tid, name) is Some {
            if !(cs[0].table_id@ == tid && cs[0].name@ == name) {
                let i = choose|i: int|
                    0 <= i < cs.drop_first().len() && cs.drop_first()[i].table_id@ == tid
                        && cs.drop_first()[i].name@ == name;
                assert(cs[i + 1].table_id@ == tid && cs[i + 1].name@ == name);
            }
        } else {
            if exists|i: int| 0 <= i < cs.len() && cs[i].table_id@ == tid && cs[i].name@ == name {
                let i = choose|i: int|
                    0 <= i < cs.len() && cs[i].table_id@ == tid && cs[i].name@ == name;
                assert(i > 0);
                assert(cs.drop_first()[i - 1].table_id@ == tid && cs.drop_first()[i - 1].name@
                    == name);
            }
        }
    }
}

pub(crate) proof fn lemma_find_table_member(ts: Seq<TableConfig>, tid: Seq<char>)
    requires
        spec_find_table(ts, tid) is Some,
    ensures
        exists|i: int| 0 <= i < ts.len() && ts[i] == spec_find_table(ts, tid)->0,
        spec_find_table(ts, tid)->0.id@ == tid,
    decreases ts.len(),
{
    if ts.len() > 0 && ts[0].id@ != tid {
        lemma_find_table_member(ts.drop_first(), tid);
        let i = choose|i: int|
            0 <= i < ts.drop_first().len() && ts.drop_first()[i] == spec_find_table(
                ts.drop_first(),
                tid,
            )->0;
        assert(ts[i + 1] == spec_find_table(ts, tid)->0);
    }
}

/// The first column with the given id exists exactly when some column has it.
pub(crate) proof fn lemma_find_col_name_some(cs: Seq<ColumnConfig>, cid: Seq<char>)
    ensures
        (spec_find_col_name(cs, cid) is Some) <==> exists|i: int|
            0 <= i < cs.len() && cs[i].id@ == cid,
    decreases cs.len(),
{
    if cs.len() > 0 {
        lemma_find_col_name_some(cs.drop_first(), cid);
        if spec_find_col_name(cs, cid) is Some {
            if cs[0].id@ != cid {
                let i = choose|i: int|
                    0 <= i < cs.drop_first().len() && cs.drop_first()[i].id@ == cid;
                assert(cs[i + 1].id@ == cid);
            }
        } else {
            if exists|i: int| 0 <= i < cs.len() && cs[i].id@ == cid {
                let i = choose|i: int| 0 <= i < cs.len() && cs[i].id@ == cid;
                assert(i > 0);
                assert(cs.drop_first()[i - 1].id@ == cid);
            }
        }
    }
}

/// Find the first table with the given id.
pub(crate) fn find_table<'a>(ts: &'a Vec<TableConfig>, tid: &str) -> (r: Option<&'a TableConfig>)
    ensures
        r is Some <==> spec_find_table(ts@, tid@) is Some,
        r is Some ==> *r->0 == spec_find_table(ts@, tid@)->0,
{
    let n = ts.len();
    let mut i: usize = 0;
    proof {
        assert(ts@.skip(0) =~= ts@);
    }
    while i < n
        invariant
            i <= n,
            n == ts@.len(),
            spec_find_table(ts@, tid@) == spec_find_table(ts@.skip(i as int), tid@),
        decreases n - i,
    {
        proof {
            assert(ts@.skip(i as int).drop_first() =~= ts@.skip(i as int + 1));
            assert(ts@.skip(i as int)[0] == ts@[i as int]);
        }
        if str_eq(ts[i].id.as_str(), tid) {
            return Some(&ts[i]);
        }
        i += 1;
    }
    proof {
        assert(ts@.skip(n as int) =~= Seq::<TableConfig>::empty());
    }
    None
}

/// Find the first schema with the given id.
pub(crate) fn find_schema<'a>(ss: &'a Vec<SchemaConfig>, sid: &str) -> (r: Option<&'a SchemaConfig>)
    ensures
        r is Some <==> spec_find_schema(ss@, sid@) is Some,
        r is Some ==> *r->0 == spec_find_schema(ss@, sid@)->0,
{
    let n = ss.len();
    let mut i: usize = 0;
    proof {
        assert(ss@.skip(0) =~= ss@);
    }
    while i < n
        invariant
            i <= n,
            n == ss@.len(),
            spec_find_schema(ss@, sid@) == spec_find_schema(ss@.skip(i as int), sid@),
        decreases n - i,
    {
        proof {
            assert(ss@.skip(i as int).drop_first() =~= ss@.skip(i as int + 1));
            assert(ss@.skip(i as int)[0] == ss@[i as int]);
        }
        if str_eq(ss[i].id.as_str(), sid) {
            return Some(&ss[i]);
        }
        i += 1;
    }
    proof {
        assert(ss@.skip(n as int) =~= Seq::<SchemaConfig>::empty());
    }
    None
}

/// Find the name of the first column with the given id.
pub(crate) fn find_col_name<'a>(cs: &'a Vec<ColumnConfig>, cid: &str) -> (r: Option<&'a String>)
    ensures
        r is Some <==> spec_find_col_name(cs@, cid@) is Some,
        r is Some ==> r->0@ == spec_find_col_name(cs@, cid@)->0,
{
    let n = cs.len();
    let mut i: usize = 0;
    proof {
        assert(cs@.skip(0) =~= cs@);
    }
    while i < n
        invariant
            i <= n,
            n == cs@.len(),
            spec_find_col_name(cs@, cid@) == spec_find_col_name(cs@.skip(i as int), cid@),
        decreases n - i,
    {
        proof {
            assert(cs@.skip(i as int).drop_first() =~= cs@.skip(i as int + 1));
            assert(cs@.skip(i as int)[0] == cs@[i as int]);
        }
        if str_eq(cs[i].id.as_str(), cid) {
            return Some(&cs[i].name);
        }
        i += 1;
    }
    proof {
        assert(cs@.skip(n as int) =~= Seq::<ColumnConfig>::empty());
    }
    None
}

/// Find the first column of the given table with the given name.
pub(crate) fn find_col_in_table<'a>(cs: &'a Vec<ColumnConfig>, tid: &str, name: &str) -> (r: Option<
    &'a ColumnConfig,
>)
    ensures
        r is Some <==> spec_find_col_in_table(cs@, tid@, name@) is Some,
        r is Some ==> *r->0 == spec_find_col_in_table(cs@, tid@, name@)->0,
{
    let n = cs.len();
    let mut i: usize = 0;
    proof {
        assert(cs@.skip(0) =~= cs@);
    }
    while i < n
        invariant
            i <= n,
            n == cs@.len(),
            spec_find_col_in_table(cs@, tid@, name@) == spec_find_col_in_table(
                cs@.skip(i as int),
                tid@,
                name@,
            ),
        decreases n - i,
    {
        proof {
            assert(cs@.skip(i as int).drop_first() =~= cs@.skip(i as int + 1));
            assert(cs@.skip(i as int)[0] == cs@[i as int]);
        }
        if str_eq(cs[i].table_id.as_str(), tid) && str_eq(cs[i].name.as_str(), name) {
            return Some(&cs[i]);
        }
        i += 1;
    }
    proof {
        assert(cs@.skip(n as int) =~= Seq::<ColumnConfig>::empty());
    }
    None
}

/// Find the path segment of the last API binding for the given table.
pub(crate) fn find_path_for_table<'a>(apis: &'a Vec<ApiEntityConfig>, tid: &str) -> (r: Option<&'a String>)
    ensures
        r is Some <==> spec_path_for_table(apis@, tid@) is Some,
        r is Some ==> r->0@ == spec_path_for_table(apis@, tid@)->0,
{
    let n = apis.len();
    let mut i: usize = n;
    proof {
        assert(apis@.take(n as int) =~= apis@);
    }
    while i > 0
        invariant
            i <= n,
            n == apis@.len(),
            spec_path_for_table(apis@, tid@) == spec_path_for_table(apis@.take(i as int), tid@),
        decreases i,
    {
        i -= 1;
        proof {
            assert(apis@.take(i as int + 1).drop_last() =~= apis@.take(i as int));
            assert(apis@.take(i as int + 1).last() == apis@[i as int]);
        }
        if str_eq(apis[i].entity_id.as_str(), tid) {
            return Some(&apis[i].path_segment);
        }
    }
    proof {
        assert(apis@.take(0) =~= Seq::<ApiEntityConfig>::empty());
    }
    None
}

/// The pg_type hint used for SQL casts, assigned deterministically from the
/// declared type name.
pub fn column_pg_type_name(ty: &ColumnTypeConfig) -> (r: Option<String>)
    ensures
        r is Some <==> spec_pg_type(spec_type_name(*ty)) is Some,
        r is Some ==> r->0@ == spec_pg_type(spec_type_name(*ty))->0,
{
    let name = ty.declared_name();
    let lower = lower_ascii_str(name);
    let l = lower.as_str();
    if str_eq(l, "timestamptz") || str_eq(l, "timestamp with time zone") {
        Some("timestamptz".to_owned())
    } else if str_eq(l, "timestamp") || starts_with(l, "timestamp ") {
        Some("timestamp".to_owned())
    } else if str_eq(l, "date") {
        Some("date".to_owned())
    } else if contains_substr(l, "uuid") {
        Some("uuid".to_owned())
    } else if contains_substr(l, "numeric") {
        Some("numeric".to_owned())
    } else if contains_char(name, '.') {
        Some(name.to_owned())
    } else {
        None
    }
}

/// Infer the primary-key kind from the declared type of the key column.
pub fn infer_pk_type(col: &ColumnConfig) -> (r: PkType)
    ensures
        r == spec_pk_type_of(spec_type_name(col.type_)),
{
    let name = col.type_.declared_name();
    let lower = lower_ascii_str(name);
    let l = lower.as_str();
    if contains_substr(l, "uuid") {
        PkType::Uuid
    } else if contains_substr(l, "bigserial") || contains_substr(l, "bigint") {
        PkType::BigInt
    } else if contains_substr(l, "serial") || contains_substr(l, "integer") || contains_substr(
        l,
        "int",
    ) {
        PkType::Int
    } else {
        PkType::Text
    }
}

/// Build the related-entity attachments for a table from the relationship
/// list: a to-one attachment where the table holds the foreign key, a
/// to-many attachment where the other side holds it, each named by the
/// related entity's path segment.
pub fn build_includes_for_table(our_table_id: &str, config: &FullConfig) -> (r: Vec<IncludeSpec>)
    ensures
        Seq::new(r@.len(), |i: int| r@[i]@) == spec_includes_for(*config, our_table_id@),
{
    let n = config.relationships.len();
    let mut out: Vec<IncludeSpec> = Vec::new();
    let mut i: usize = 0;
    proof {
        assert(config.relationships@.skip(0) =~= config.relationships@);
        assert(Seq::new(out@.len(), |i: int| out@[i]@) =~= Seq::<IncludeModel>::empty());
    }
    while i < n
        invariant
            i <= n,
            n == config.relationships@.len(),
            Seq::new(out@.len(), |k: int| out@[k]@) + spec_includes_rec(
                *config,
                config.relationships@.skip(i as int),
                our_table_id@,
            ) == spec_includes_for(*config, our_table_id@),
        decreases n - i,
    {
        proof {
            assert(config.relationships@.skip(i as int).drop_first() =~= config.relationships@.skip(
                i as int + 1,
            ));
            assert(config.relationships@.skip(i as int)[0] == config.relationships@[i as int]);
        }
        let ghost prev = Seq::new(out@.len(), |k: int| out@[k]@);
        let ghost contribution = spec_rel_contribution(
            *config,
            config.relationships@[i as int],
            our_table_id@,
        );
        let rel = &config.relationships[i];
        let from_col = find_col_name(&config.columns, rel.from_column_id.as_str());
        let to_col = find_col_name(&config.columns, rel.to_column_id.as_str());
        let from_path = find_path_for_table(&config.api_entities, rel.from_table_id.as_str());
        let to_path = find_path_for_table(&config.api_entities, rel.to_table_id.as_str());
        if let (Some(our_key), Some(their_key), Some(related_path)) = (from_col, to_col, to_path) {
            if str_eq(rel.from_table_id.as_str(), our_table_id) {
                out.push(
                    IncludeSpec {
                        name: related_path.clone(),
                        direction: IncludeDirection::ToOne,
                        related_path_segment: related_path.clone(),
                        our_key_column: our_key.clone(),
                        their_key_column: their_key.clone(),
                    },
                );
            }
        }
        if let (Some(their_key), Some(our_key), Some(related_path)) = (from_col, to_col, from_path) {
            if str_eq(rel.to_table_id.as_str(), our_table_id) {
                out.push(
                    IncludeSpec {
                        name: related_path.clone(),
                        direction: IncludeDirection::ToMany,
                        related_path_segment: related_path.clone(),
                        our_key_column: our_key.clone(),
                        their_key_column: their_key.clone(),
                    },
                );
            }
        }
        proof {
            assert(Seq::new(out@.len(), |k: int| out@[k]@) =~= prev + contribution);
        }
        i += 1;
    }
    proof {
        assert(config.relationships@.skip(n as int) =~= Seq::<RelationshipConfig>::empty());
        assert(Seq::new(out@.len(), |k: int| out@[k]@) + Seq::<IncludeModel>::empty() =~= Seq::new(
            out@.len(),
            |k: int| out@[k]@,
        ));
    }
    out
}

/// Copy a vector of strings.
fn clone_strings(v: &Vec<String>) -> (r: Vec<String>)
    ensures
        view_strs(r@) == view_strs(v@),
{
    let n = v.len();
    let mut out: Vec<String> = Vec::new();
    let mut i: usize = 0;
    while i < n
        invariant
            i <= n,
            n == v@.len(),
            out@.len() == i,
            forall|j: int| 0 <= j < i ==> out@[j]@ == v@[j]@,
        decreases n - i,
    {
        out.push(v[i].clone());
        i += 1;
    }
    proof {
        assert(view_strs(out@) =~= view_strs(v@));
    }
    out
}

/// Whether a vector of strings holds the given characters.
fn contains_string(v: &Vec<String>, s: &str) -> (r: bool)
    ensures
        r == view_strs(v@).contains(s@),
{
    let n = v.len();
    let mut i: usize = 0;
    while i < n
        invariant
            i <= n,
            n == v@.len(),
            forall|j: int| 0 <= j < i ==> v@[j]@ != s@,
        decreases n - i,
    {
        if str_eq(v[i].as_str(), s) {
            proof {
                assert(view_strs(v@)[i as int] == s@);
            }
            return true;
        }
        i += 1;
    }
    proof {
        if view_strs(v@).contains(s@) {
            let j = choose|j: int| 0 <= j < view_strs(v@).len() && view_strs(v@)[j] == s@;
            assert(v@[j]@ != s@);
        }
    }
    false
}

/// The primary-key column names of a table, in declaration order.
pub fn pk_columns_of(pk: &PrimaryKeyConfig) -> (r: Vec<String>)
    ensures
        view_strs(r@) == spec_pk_names(*pk),
{
    match pk {
        PrimaryKeyConfig::Single(s) => {
            let mut out: Vec<String> = Vec::new();
            out.push(s.clone());
            proof {
                assert(view_strs(out@) =~= spec_pk_names(*pk));
            }
            out
        },
        PrimaryKeyConfig::Composite(v) => {
            let r = clone_strings(v);
            proof {
                assert(view_strs(r@) =~= spec_pk_names(*pk));
            }
            r
        },
    }
}

/// Copy a validation rule.
fn clone_rule(rule: &crate::config::ValidationRule) -> (r: crate::config::ValidationRule)
    ensures
        r@ == rule@,
{
    let format = match &rule.format {
        Some(s) => Some(s.clone()),
        None => None,
    };
    let pattern = match &rule.pattern {
        Some(s) => Some(s.clone()),
        None => None,
    };
    let allowed = match &rule.allowed {
        Some(v) => {
            let n = v.len();
            let mut out: Vec<crate::json::JsonValue> = Vec::new();
            let mut i: usize = 0;
            while i < n
                invariant
                    i <= n,
                    n == v@.len(),
                    out@.len() == i,
                    forall|j: int|
                        0 <= j < i ==> crate::json::view_json(out@[j]) == crate::json::view_json(
                            v@[j],
                        ),
                decreases n - i,
            {
                out.push(v[i].deep_copy());
                i += 1;
            }
            proof {
                crate::json::lemma_view_json_seq(out@);
                crate::json::lemma_view_json_seq(v@);
                assert(crate::json::view_json_seq(out@) =~= crate::json::view_json_seq(v@));
            }
            Some(out)
        },
        None => None,
    };
    crate::config::ValidationRule {
        required: rule.required,
        format,
        max_length: rule.max_length,
        min_length: rule.min_length,
        pattern,
        allowed,
        minimum: rule.minimum,
        maximum: rule.maximum,
    }
}

/// Copy the per-column validation rules of an API binding.
fn clone_validation(v: &Vec<(String, crate::config::ValidationRule)>) -> (r: Vec<
    (String, crate::config::ValidationRule),
>)
    ensures
        Seq::new(r@.len(), |i: int| (r@[i].0@, r@[i].1@)) == Seq::new(
            v@.len(),
            |i: int| (v@[i].0@, v@[i].1@),
        ),
{
    let n = v.len();
    let mut out: Vec<(String, crate::config::ValidationRule)> = Vec::new();
    let mut i: usize = 0;
    while i < n
        invariant
            i <= n,
            n == v@.len(),
            out@.len() == i,
            forall|j: int|
                0 <= j < i ==> (#[trigger] out@[j]).0@ == v@[j].0@ && out@[j].1@ == v@[j].1@,
        decreases n - i,
    {
        let k = v[i].0.clone();
        let rule = clone_rule(&v[i].1);
        out.push((k, rule));
        i += 1;
    }
    proof {
        assert(Seq::new(out@.len(), |i: int| (out@[i].0@, out@[i].1@)) =~= Seq::new(
            v@.len(),
            |i: int| (v@[i].0@, v@[i].1@),
        ));
    }
    out
}

/// Whether the built columns already hold one with the given name.
fn columns_contain(cols: &Vec<ColumnInfo>, name: &str) -> (r: bool)
    ensures
        r == has_column_model_named(Seq::new(cols@.len(), |i: int| cols@[i]@), name@),
{
    let n = cols.len();
    let mut i: usize = 0;
    while i < n
        invariant
            i <= n,
            n == cols@.len(),
            forall|j: int| 0 <= j < i ==> cols@[j].name@ != name@,
        decreases n - i,
    {
        if str_eq(cols[i].name.as_str(), name) {
            proof {
                assert(Seq::new(cols@.len(), |k: int| cols@[k]@)[i as int].name == name@);
            }
            return true;
        }
        i += 1;
    }
    proof {
        let v = Seq::new(cols@.len(), |k: int| cols@[k]@);
        if has_column_model_named(v, name@) {
            let j = choose|j: int| 0 <= j < v.len() && v[j].name == name@;
            assert(cols@[j].name@ != name@);
        }
    }
    false
}

/// Build the column list of an entity: the table's configured columns in
/// declaration order, then the audit timestamps the migration engine
/// injects where the table does not declare them.
fn entity_columns(config: &FullConfig, tid: &str, pk_names: &Vec<String>, pkt: PkType) -> (r: Vec<
    ColumnInfo,
>)
    ensures
        Seq::new(r@.len(), |i: int| r@[i]@) == spec_with_audit_columns(
            spec_table_columns(config.columns@, tid@, view_strs(pk_names@), pkt),
        ),
{
    let n = config.columns.len();
    let mut out: Vec<ColumnInfo> = Vec::new();
    let mut i: usize = 0;
    proof {
        assert(config.columns@.skip(0) =~= config.columns@);
        assert(Seq::new(out@.len(), |k: int| out@[k]@) =~= Seq::<ColumnModel>::empty());
    }
    while i < n
        invariant
            i <= n,
            n == config.columns@.len(),
            Seq::new(out@.len(), |k: int| out@[k]@) + spec_table_columns(
                config.columns@.skip(i as int),
                tid@,
                view_strs(pk_names@),
                pkt,
            ) == spec_table_columns(config.columns@, tid@, view_strs(pk_names@), pkt),
        decreases n - i,
    {
        proof {
            assert(config.columns@.skip(i as int).drop_first() =~= config.columns@.skip(
                i as int + 1,
            ));
            assert(config.columns@.skip(i as int)[0] == config.columns@[i as int]);
        }
        let ghost prev = Seq::new(out@.len(), |k: int| out@[k]@);
        let col = &config.columns[i];
        if str_eq(col.table_id.as_str(), tid) {
            let is_pk = contains_string(pk_names, col.name.as_str());
            let info = ColumnInfo {
                name: col.name.clone(),
                pk_type: if is_pk {
                    Some(pkt)
                } else {
                    None
                },
                nullable: col.nullable,
                has_default: col.default.is_some(),
                pg_type: column_pg_type_name(&col.type_),
            };
            proof {
                assert(info@ =~= spec_column_model(config.columns@[i as int], view_strs(pk_names@), pkt));
            }
            out.push(info);
            proof {
                assert(Seq::new(out@.len(), |k: int| out@[k]@) =~= prev.push(
                    spec_column_model(config.columns@[i as int], view_strs(pk_names@), pkt),
                ));
                assert(prev.push(
                    spec_column_model(config.columns@[i as int], view_strs(pk_names@), pkt),
                ) =~= prev + seq![
                    spec_column_model(config.columns@[i as int], view_strs(pk_names@), pkt),
                ]);
            }
        }
        i += 1;
    }
    proof {
        assert(config.columns@.skip(n as int) =~= Seq::<ColumnConfig>::empty());
        assert(Seq::new(out@.len(), |k: int| out@[k]@) + Seq::<ColumnModel>::empty() =~= Seq::new(
            out@.len(),
            |k: int| out@[k]@,
        ));
    }
    let ghost base = Seq::new(out@.len(), |k: int| out@[k]@);
    let has_created = columns_contain(&out, "created_at");
    let has_updated = columns_contain(&out, "updated_at");
    let has_archived = columns_contain(&out, "archived_at");
    if !has_created {
        let ghost before = Seq::new(out@.len(), |k: int| out@[k]@);
        out.push(
            ColumnInfo {
                name: "created_at".to_owned(),
                pk_type: None,
                nullable: false,
                has_default: true,
                pg_type: Some("timestamptz".to_owned()),
            },
        );
        proof {
            assert(Seq::new(out@.len(), |k: int| out@[k]@) =~= before.push(
                audit_column_model("created_at"@, false, true),
            ));
        }
    }
    if !has_updated {
        let ghost before = Seq::new(out@.len(), |k: int| out@[k]@);
        out.push(
            ColumnInfo {
                name: "updated_at".to_owned(),
                pk_type: None,
                nullable: false,
                has_default: true,
                pg_type: Some("timestamptz".to_owned()),
            },
        );
        proof {
            assert(Seq::new(out@.len(), |k: int| out@[k]@) =~= before.push(
                audit_column_model("updated_at"@, false, true),
            ));
        }
    }
    if !has_archived {
        let ghost before = Seq::new(out@.len(), |k: int| out@[k]@);
        out.push(
            ColumnInfo {
                name: "archived_at".to_owned(),
                pk_type: None,
                nullable: true,
                has_default: false,
                pg_type: Some("timestamptz".to_owned()),
            },
        );
        proof {
            assert(Seq::new(out@.len(), |k: int| out@[k]@) =~= before.push(
                audit_column_model("archived_at"@, true, false),
            ));
        }
    }
    proof {
        assert(Seq::new(out@.len(), |k: int| out@[k]@) =~= spec_with_audit_columns(base));
    }
    out
}

/// Build the resolved model from a configuration. Resolution validates
/// first, then produces one entity per API binding, in binding order; the
/// result is pinned to `spec_model`, so equal configurations resolve to
/// equal models.
pub fn resolve(config: &FullConfig) -> (r: Result<ResolvedModel, ConfigError>)
    ensures
        r is Ok <==> spec_resolvable(*config),
        r is Ok ==> view_entities(r->Ok_0.entities@) == spec_model(*config),
        r is Err ==> !spec_resolvable(*config),
{
    match validate(config) {
        Ok(()) => (),
        Err(e) => {
            return Err(e);
        },
    }
    let default_sid = match default_schema_id(config) {
        Ok(s) => s,
        Err(e) => {
            return Err(e);
        },
    };

    let n = config.api_entities.len();
    let mut entities: Vec<ResolvedEntity> = Vec::new();
    let mut i: usize = 0;
    while i < n
        invariant
            i <= n,
            n == config.api_entities@.len(),
            config_valid(*config),
            default_sid@ == spec_default_schema_id(*config),
            entities@.len() == i,
            forall|j: int|
                0 <= j < i ==> #[trigger] entities@[j]@ == spec_entity(
                    *config,
                    config.api_entities@[j],
                ),
            forall|j: int|
                0 <= j < i ==> spec_pk_names(
                    spec_api_table(*config, #[trigger] config.api_entities@[j]).primary_key,
                ).len() > 0,
        decreases n - i,
    {
        let api = &config.api_entities[i];
        proof {
            assert(has_table_id(*config, config.api_entities@[i as int].entity_id@));
            lemma_find_table_some(config.tables@, api.entity_id@);
        }
        let table = match find_table(&config.tables, api.entity_id.as_str()) {
            Some(t) => t,
            None => {
                return Err(
                    ConfigError::MissingReference {
                        kind: "table".to_owned(),
                        id: api.entity_id.clone(),
                    },
                );
            },
        };
        proof {
            lemma_find_table_member(config.tables@, api.entity_id@);
            let m = choose|m: int|
                0 <= m < config.tables@.len() && config.tables@[m] == spec_find_table(
                    config.tables@,
                    api.entity_id@,
                )->0;
            assert(has_schema_id(
                *config,
                effective_schema_id(config.tables@[m].schema_id, spec_default_schema_id(*config)),
            ));
            lemma_find_schema_some(
                config.schemas@,
                effective_schema_id(table.schema_id, spec_default_schema_id(*config)),
            );
        }
        let table_sid = crate::validator::record_schema_id(&table.schema_id, default_sid);
        let schema = match find_schema(&config.schemas, table_sid) {
            Some(s) => s,
            None => {
                return Err(
                    ConfigError::MissingReference {
                        kind: "schema".to_owned(),
                        id: table_sid.to_owned(),
                    },
                );
            },
        };
        let pk_names = pk_columns_of(&table.primary_key);
        if pk_names.len() == 0 {
            proof {
                assert(spec_pk_names(
                    spec_api_table(*config, config.api_entities@[i as int]).primary_key,
                ).len() == 0);
            }
            return Err(
                ConfigError::InvalidPrimaryKey {
                    table_id: table.id.clone(),
                    column: String::new(),
                },
            );
        }
        proof {
            lemma_find_table_member(config.tables@, api.entity_id@);
            let m = choose|m: int|
                0 <= m < config.tables@.len() && config.tables@[m] == spec_find_table(
                    config.tables@,
                    api.entity_id@,
                )->0;
            assert(table_has_column_named(
                *config,
                config.tables@[m].id@,
                spec_pk_names(config.tables@[m].primary_key)[0],
            ));
            lemma_find_col_in_table_some(config.columns@, table.id@, view_strs(pk_names@)[0]);
            assert(view_strs(pk_names@)[0] == pk_names@[0]@);
        }
        let pk_col = match find_col_in_table(&config.columns, table.id.as_str(), pk_names[0].as_str()) {
            Some(col) => col,
            None => {
                return Err(
                    ConfigError::InvalidPrimaryKey {
                        table_id: table.id.clone(),
                        column: pk_names[0].clone(),
                    },
                );
            },
        };
        let pkt = infer_pk_type(pk_col);
        let columns = entity_columns(config, table.id.as_str(), &pk_names, pkt);
        let entity_includes = build_includes_for_table(table.id.as_str(), config);
        let entity = ResolvedEntity {
            table_id: table.id.clone(),
            schema_name: schema.name.clone(),
            table_name: table.name.clone(),
            path_segment: api.path_segment.clone(),
            pk_columns: pk_names,
            pk_type: pkt,
            columns,
            operations: clone_strings(&api.operations),
            sensitive_columns: clone_strings(&api.sensitive_columns),
            includes: entity_includes,
            validation: clone_validation(&api.validation),
        };
        proof {
            assert(entity@ =~~= spec_entity(*config, config.api_entities@[i as int]));
        }
        entities.push(entity);
        i += 1;
    }
    proof {
        assert(view_entities(entities@) =~= spec_model(*config));
    }
    Ok(ResolvedModel { entities })
}

/// Naming law for attachments: every attachment of every resolved entity is
/// named by the path segment of an API binding of the related table, and its
/// lookup name equals that attachment name.
pub proof fn lemma_include_names(c: FullConfig, rels: Seq<RelationshipConfig>, our: Seq<char>)
    ensures
        forall|k: int|
            0 <= k < spec_includes_rec(c, rels, our).len() ==> {
                let inc = #[trigger] spec_includes_rec(c, rels, our)[k];
                inc.name == inc.related_path_segment && exists|a: int|
                    0 <= a < c.api_entities@.len() && c.api_entities@[a].path_segment@ == inc.name
            },
    decreases rels.len(),
{
    if rels.len() > 0 {
        lemma_include_names(c, rels.drop_first(), our);
        let head = spec_rel_contribution(c, rels[0], our);
        lemma_path_for_table_member(c.api_entities@, rels[0].from_table_id@);
        lemma_path_for_table_member(c.api_entities@, rels[0].to_table_id@);
        assert forall|k: int| 0 <= k < spec_includes_rec(c, rels, our).len() implies {
            let inc = #[trigger] spec_includes_rec(c, rels, our)[k];
            inc.name == inc.related_path_segment && exists|a: int|
                0 <= a < c.api_entities@.len() && c.api_entities@[a].path_segment@ == inc.name
        } by {
            if k >= head.len() {
                assert(spec_includes_rec(c, rels, our)[k] == spec_includes_rec(
                    c,
                    rels.drop_first(),
                    our,
                )[k - head.len()]);
            }
        }
    }
}

/// A path found for a table is the path segment of one of the API bindings.
proof fn lemma_path_for_table_member(apis: Seq<ApiEntityConfig>, tid: Seq<char>)
    ensures
        spec_path_for_table(apis, tid) is Some ==> exists|a: int|
            0 <= a < apis.len() && apis[a].path_segment@ == spec_path_for_table(apis, tid)->0,
    decreases apis.len(),
{
    if apis.len() > 0 {
        if apis.last().entity_id@ == tid {
            assert(apis[apis.len() - 1].path_segment@ == spec_path_for_table(apis, tid)->0);
        } else {
            lemma_path_for_table_member(apis.drop_last(), tid);
            if spec_path_for_table(apis, tid) is Some {
                let a = choose|a: int|
                    0 <= a < apis.drop_last().len() && apis.drop_last()[a].path_segment@
                        == spec_path_for_table(apis.drop_last(), tid)->0;
                assert(apis[a].path_segment@ == spec_path_for_table(apis, tid)->0);
            }
        }
    }
}

} // verus!
