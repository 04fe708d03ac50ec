//! Metastore planning: the versioned write protocol over the `_sys_*`
//! tables, decided as a pure function of the current rows and the incoming
//! records. The statements themselves run outside; what they must do is
//! fixed here.

use vstd::prelude::*;
use vstd::string::*;

use crate::error::AppError;
use crate::json::{Json, JsonValue, view_json, view_json_pairs};
use crate::strutil::str_eq;

verus! {

/// The `_sys_*` table for a configuration kind.
pub fn sys_table_for_kind(kind: &str) -> (r: Option<&'static str>)
    ensures
        r is Some <==> spec_sys_table_for_kind(kind@) is Some,
        r is Some ==> r->0@ == spec_sys_table_for_kind(kind@)->0,
{
    if str_eq(kind, "schemas") {
        Some("_sys_schemas")
    } else if str_eq(kind, "enums") {
        Some("_sys_enums")
    } else if str_eq(kind, "tables") {
        Some("_sys_tables")
    } else if str_eq(kind, "columns") {
        Some("_sys_columns")
    } else if str_eq(kind, "indexes") {
        Some("_sys_indexes")
    } else if str_eq(kind, "relationships") {
        Some("_sys_relationships")
    } else if str_eq(kind, "api_entities") {
        Some("_sys_api_entities")
    } else {
        None
    }
}

pub open spec fn spec_sys_table_for_kind(kind: Seq<char>) -> Option<Seq<char>> {
    if kind == "schemas"@ {
        Some("_sys_schemas"@)
    } else if kind == "enums"@ {
        Some("_sys_enums"@)
    } else if kind == "tables"@ {
        Some("_sys_tables"@)
    } else if kind == "columns"@ {
        Some("_sys_columns"@)
    } else if kind == "indexes"@ {
        Some("_sys_indexes"@)
    } else if kind == "relationships"@ {
        Some("_sys_relationships"@)
    } else if kind == "api_entities"@ {
        Some("_sys_api_entities"@)
    } else {
        None
    }
}

/// The schema-qualified name of a `_sys_*` table under the metastore
/// schema.
pub fn qualified_sys_table(schema: &str, table: &str) -> (r: String)
    ensures
        r@ == schema@ + "."@ + table@,
{
    let mut out = schema.to_owned();
    out.append(".");
    out.append(table);
    out
}

/// The package id used when configuration is posted directly, without a
/// package install.
pub fn default_package_id() -> (r: &'static str)
    ensures
        r@ == "_default"@,
{
    "_default"
}

/// The first string value of a top-level key of an object.
pub open spec fn spec_obj_str(v: Json, k: Seq<char>) -> Option<Seq<char>> {
    match v {
        Json::Obj(pairs) => match crate::json::obj_value_of_opt(pairs, k) {
            Some(Json::Str(s)) => Some(s),
            _ => None,
        },
        _ => None,
    }
}

/// The storage id of a configuration record: its `id` field, or for API
/// entities its `entity_id` when `id` is absent.
pub open spec fn spec_record_id(table: Seq<char>, rec: Json) -> Option<Seq<char>> {
    match spec_obj_str(rec, "id"@) {
        Some(id) => Some(id),
        None => if table == "_sys_api_entities"@ {
            spec_obj_str(rec, "entity_id"@)
        } else {
            None
        },
    }
}

/// Look up the first string value of a top-level key of an object.
#[verifier::loop_isolation(false)]
fn obj_str<'a>(v: &'a JsonValue, k: &str) -> (r: Option<&'a String>)
    ensures
        r is Some <==> spec_obj_str(v@, k@) is Some,
        r is Some ==> r->0@ == spec_obj_str(v@, k@)->0,
{
    match v {
        JsonValue::Obj(pairs) => {
            proof {
                crate::json::lemma_view_json_pairs(pairs@);
                assert(view_json_pairs(pairs@).skip(0) =~= view_json_pairs(pairs@));
            }
            let n = pairs.len();
            let mut i: usize = 0;
            while i < n
                invariant
                    i <= n,
                    n == pairs@.len(),
                    view_json_pairs(pairs@).len() == n,
                    forall|m: int|
                        0 <= m < n ==> #[trigger] view_json_pairs(pairs@)[m] == (
                            pairs@[m].0@,
                            view_json(pairs@[m].1),
                        ),
                    crate::json::obj_value_of_opt(view_json_pairs(pairs@), k@)
                        == crate::json::obj_value_of_opt(
                        view_json_pairs(pairs@).skip(i as int),
                        k@,
                    ),
                decreases n - i,
            {
                proof {
                    assert(view_json_pairs(pairs@).skip(i as int).drop_first() =~= view_json_pairs(
                        pairs@,
                    ).skip(i as int + 1));
                    assert(view_json_pairs(pairs@).skip(i as int)[0] == view_json_pairs(pairs@)[
                        i as int]);
                }
                if str_eq(pairs[i].0.as_str(), k) {
                    proof {
                        assert(v@ == Json::Obj(view_json_pairs(pairs@)));
                        assert(crate::json::obj_value_of_opt(view_json_pairs(pairs@), k@) == Some(
                            view_json(pairs@[i as int].1),
                        ));
                    }
                    match &pairs[i].1 {
                        JsonValue::Str(s) => {
                            proof {
                                assert(view_json(pairs@[i as int].1) == Json::Str(s@));
                            }
                            return Some(s);
                        },
                        _ => {
                            proof {
                                assert(!(view_json(pairs@[i as int].1) is Str)) by {
                                    crate::json::lemma_view_ctor_str(pairs@[i as int].1);
                                }
                            }
                            return None;
                        },
                    }
                }
                i += 1;
            }
            proof {
                assert(view_json_pairs(pairs@).skip(n as int) =~= Seq::<(Seq<char>, Json)>::empty());
            }
            None
        },
        _ => None,
    }
}

/// The string value under a top-level key of an object, as used for
/// manifest fields.
pub fn manifest_str(v: &JsonValue, k: &str) -> (r: Option<String>)
    ensures
        r is Some <==> spec_obj_str(v@, k@) is Some,
        r is Some ==> r->0@ == spec_obj_str(v@, k@)->0,
{
    match obj_str(v, k) {
        Some(s) => Some(s.clone()),
        None => None,
    }
}

/// Resolve the storage id of a configuration record. Each record must
/// carry `id`; API-entity records may alternatively carry `entity_id`.
pub fn config_record_id(table: &str, rec: &JsonValue) -> (r: Result<String, AppError>)
    ensures
        r is Ok <==> spec_record_id(table@, rec@) is Some,
        r is Ok ==> r->Ok_0@ == spec_record_id(table@, rec@)->0,
        r is Err ==> r->Err_0 is BadRequest,
{
    match obj_str(rec, "id") {
        Some(id) => Ok(id.clone()),
        None => {
            if str_eq(table, "_sys_api_entities") {
                match obj_str(rec, "entity_id") {
                    Some(eid) => {
                        return Ok(eid.clone());
                    },
                    None => (),
                }
            }
            Err(
                AppError::BadRequest(
                    "each config record must have an 'id' field (or 'entity_id' for api_entities)".to_owned(),
                ),
            )
        },
    }
}

/// The stored payload for an id among the current rows, if any.
pub open spec fn spec_current_payload(rows: Seq<(Seq<char>, Json)>, id: Seq<char>) -> Option<Json> {
    crate::json::obj_value_of_opt(rows, id)
}

/// Deep equality of the incoming records with the stored rows: the same
/// number of rows, and for each record, a stored row under its id with a
/// deep-equal payload.
pub open spec fn spec_payloads_unchanged(
    table: Seq<char>,
    current: Seq<(Seq<char>, Json)>,
    records: Seq<Json>,
) -> bool {
    &&& current.len() == records.len()
    &&& forall|i: int|
        0 <= i < records.len() ==> {
            let rid = spec_record_id(table, #[trigger] records[i]);
            rid is Some && spec_current_payload(current, rid->0) == Some(records[i])
        }
}

/// What a configuration write must do, decided from the current rows.
pub struct ReplacePlan {
    /// True when the incoming records are deep-equal to the stored set:
    /// nothing is written and the version stays.
    pub unchanged: bool,
    /// The version the kind ends at.
    pub new_version: i64,
    /// The rows to copy into the history table, at their current version:
    /// every previously-live row, or none on an unchanged write.
    pub history: Vec<(String, JsonValue)>,
    /// The rows to insert, each at the new version: the incoming records
    /// under their resolved ids, or none on an unchanged write.
    pub inserts: Vec<(String, JsonValue)>,
}

/// Version law: a write of records deep-equal to the stored set keeps the
/// version and writes no history row; any other write advances the version
/// by exactly one and writes one history row per previously-live record.
#[verifier::loop_isolation(false)]
pub fn plan_replace_rows(
    table: &str,
    current: &Vec<(String, JsonValue)>,
    current_version: i64,
    records: &Vec<JsonValue>,
) -> (r: Result<ReplacePlan, AppError>)
    requires
        current_version < i64::MAX,
    ensures
        r is Ok <==> (forall|i: int|
            0 <= i < records@.len() ==> spec_record_id(table@, view_json(#[trigger] records@[i]))
                is Some),
        r is Ok ==> {
            let p = r->Ok_0;
            &&& p.unchanged == spec_payloads_unchanged(
                table@,
                view_json_pairs(current@),
                crate::json::view_json_seq(records@),
            )
            &&& (p.unchanged ==> p.new_version == current_version && p.history@.len() == 0
                && p.inserts@.len() == 0)
            &&& (!p.unchanged ==> p.new_version == current_version + 1 && view_json_pairs(
                p.history@,
            ) == view_json_pairs(current@) && view_json_pairs(p.inserts@) == Seq::new(
                records@.len(),
                |i: int|
                    (
                        spec_record_id(table@, view_json(records@[i]))->0,
                        view_json(records@[i]),
                    ),
            ))
        },
        r is Err ==> r->Err_0 is BadRequest,
{
    proof {
        crate::json::lemma_view_json_seq(records@);
        crate::json::lemma_view_json_pairs(current@);
    }
    let n = records.len();

    // Resolve every record id first: a record without one rejects the
    // whole write.
    let mut ids: Vec<String> = Vec::new();
    let mut i: usize = 0;
    while i < n
        invariant
            i <= n,
            n == records@.len(),
            ids@.len() == i,
            forall|j: int|
                0 <= j < i ==> spec_record_id(table@, view_json(#[trigger] records@[j])) is Some,
            forall|j: int|
                0 <= j < i ==> #[trigger] ids@[j]@ == spec_record_id(
                    table@,
                    view_json(records@[j]),
                )->0,
        decreases n - i,
    {
        match config_record_id(table, &records[i]) {
            Ok(id) => {
                ids.push(id);
            },
            Err(e) => {
                return Err(e);
            },
        }
        i += 1;
    }

    // Deep-compare with the stored rows.
    let mut unchanged = current.len() == records.len();
    let mut i: usize = 0;
    while i < n && unchanged
        invariant
            i <= n,
            n == records@.len(),
            ids@.len() == n,
            forall|j: int|
                0 <= j < n ==> spec_record_id(table@, view_json(#[trigger] records@[j])) is Some,
            forall|j: int|
                0 <= j < n ==> #[trigger] ids@[j]@ == spec_record_id(
                    table@,
                    view_json(records@[j]),
                )->0,
            unchanged ==> current@.len() == records@.len(),
            unchanged ==> forall|j: int|
                0 <= j < i ==> spec_current_payload(
                    view_json_pairs(current@),
                    spec_record_id(table@, view_json(#[trigger] records@[j]))->0,
                ) == Some(view_json(records@[j])),
            !unchanged ==> !spec_payloads_unchanged(
                table@,
                view_json_pairs(current@),
                crate::json::view_json_seq(records@),
            ),
        decreases n - i + (if unchanged {
            1int
        } else {
            0int
        }),
    {
        match current_value_of(current, ids[i].as_str()) {
            Some(existing) => {
                if !existing.deep_eq(&records[i]) {
                    proof {
                        assert(crate::json::view_json_seq(records@)[i as int] == view_json(
                            records@[i as int],
                        ));
                        assert(spec_current_payload(
                            view_json_pairs(current@),
                            spec_record_id(table@, view_json(records@[i as int]))->0,
                        ) != Some(view_json(records@[i as int])));
                    }
                    unchanged = false;
                } else {
                    i += 1;
                }
            },
            None => {
                proof {
                    assert(crate::json::view_json_seq(records@)[i as int] == view_json(
                        records@[i as int],
                    ));
                    assert(spec_current_payload(
                        view_json_pairs(current@),
                        spec_record_id(table@, view_json(records@[i as int]))->0,
                    ) is None);
                }
                unchanged = false;
            },
        }
    }

    if unchanged {
        proof {
            assert(spec_payloads_unchanged(
                table@,
                view_json_pairs(current@),
                crate::json::view_json_seq(records@),
            ));
        }
        return Ok(
            ReplacePlan {
                unchanged: true,
                new_version: current_version,
                history: Vec::new(),
                inserts: Vec::new(),
            },
        );
    }

    // Changed: copy the current rows to history at their version, then
    // insert the records at the next version.
    let mut history: Vec<(String, JsonValue)> = Vec::new();
    let m = current.len();
    let mut i: usize = 0;
    while i < m
        invariant
            i <= m,
            m == current@.len(),
            history@.len() == i,
            forall|j: int|
                0 <= j < i ==> (#[trigger] history@[j]).0@ == current@[j].0@ && view_json(
                    history@[j].1,
                ) == view_json(current@[j].1),
        decreases m - i,
    {
        let id = current[i].0.clone();
        let payload = current[i].1.deep_copy();
        history.push((id, payload));
        i += 1;
    }
    let mut inserts: Vec<(String, JsonValue)> = Vec::new();
    let mut i: usize = 0;
    while i < n
        invariant
            i <= n,
            n == records@.len(),
            ids@.len() == n,
            forall|j: int|
                0 <= j < n ==> #[trigger] ids@[j]@ == spec_record_id(
                    table@,
                    view_json(records@[j]),
                )->0,
            inserts@.len() == i,
            forall|j: int|
                0 <= j < i ==> (#[trigger] inserts@[j]).0@ == ids@[j]@ && view_json(inserts@[j].1)
                    == view_json(records@[j]),
        decreases n - i,
    {
        let id = ids[i].clone();
        let payload = records[i].deep_copy();
        inserts.push((id, payload));
        i += 1;
    }
    proof {
        crate::json::lemma_view_json_pairs(history@);
        crate::json::lemma_view_json_pairs(inserts@);
        assert(view_json_pairs(history@) =~= view_json_pairs(current@));
        assert(view_json_pairs(inserts@) =~= Seq::new(
            records@.len(),
            |i: int| (spec_record_id(table@, view_json(records@[i]))->0, view_json(records@[i])),
        ));
    }
    Ok(ReplacePlan { unchanged: false, new_version: current_version + 1, history, inserts })
}

/// Find the stored payload for an id among the current rows.
#[verifier::loop_isolation(false)]
fn current_value_of<'a>(rows: &'a Vec<(String, JsonValue)>, id: &str) -> (r: Option<&'a JsonValue>)
    ensures
        r is Some <==> spec_current_payload(view_json_pairs(rows@), id@) is Some,
        r is Some ==> view_json(*r->0) == spec_current_payload(view_json_pairs(rows@), id@)->0,
{
    proof {
        crate::json::lemma_view_json_pairs(rows@);
        assert(view_json_pairs(rows@).skip(0) =~= view_json_pairs(rows@));
    }
    let n = rows.len();
    let mut i: usize = 0;
    while i < n
        invariant
            i <= n,
            n == rows@.len(),
            view_json_pairs(rows@).len() == n,
            forall|m: int|
                0 <= m < n ==> #[trigger] view_json_pairs(rows@)[m] == (
                    rows@[m].0@,
                    view_json(rows@[m].1),
                ),
            crate::json::obj_value_of_opt(view_json_pairs(rows@), id@)
                == crate::json::obj_value_of_opt(view_json_pairs(rows@).skip(i as int), id@),
        decreases n - i,
    {
        proof {
            assert(view_json_pairs(rows@).skip(i as int).drop_first() =~= view_json_pairs(
                rows@,
            ).skip(i as int + 1));
            assert(view_json_pairs(rows@).skip(i as int)[0] == view_json_pairs(rows@)[i as int]);
        }
        if str_eq(rows[i].0.as_str(), id) {
            return Some(&rows[i].1);
        }
        i += 1;
    }
    proof {
        assert(view_json_pairs(rows@).skip(n as int) =~= Seq::<(Seq<char>, Json)>::empty());
    }
    None
}

/// The index after the last slash of a URL, when one exists.
pub open spec fn spec_path_start(s: Seq<char>) -> Option<int>
    decreases s.len(),
{
    if s.len() == 0 {
        None
    } else if s.last() == '/' {
        Some(s.len() as int)
    } else {
        spec_path_start(s.drop_last())
    }
}

/// The database name of a URL: what follows the last slash, up to a query
/// string.
pub open spec fn spec_db_name(s: Seq<char>, start: int) -> Seq<char> {
    let rest = s.skip(start);
    spec_before_query(rest)
}

/// A string up to its first question mark.
pub open spec fn spec_before_query(s: Seq<char>) -> Seq<char>
    decreases s.len(),
{
    if s.len() == 0 {
        Seq::empty()
    } else if s[0] == '?' {
        Seq::empty()
    } else {
        seq![s[0]] + spec_before_query(s.drop_first())
    }
}

/// A string from its first question mark on, or empty.
pub open spec fn spec_from_query(s: Seq<char>) -> Seq<char>
    decreases s.len(),
{
    if s.len() == 0 {
        Seq::empty()
    } else if s[0] == '?' {
        s
    } else {
        spec_from_query(s.drop_first())
    }
}

/// Find the index after the last slash.
#[verifier::loop_isolation(false)]
fn path_start(cs: &Vec<char>) -> (r: Option<usize>)
    ensures
        r is Some <==> spec_path_start(cs@) is Some,
        r is Some ==> r->0 as int == spec_path_start(cs@)->0,
        r is Some ==> r->0 <= cs@.len(),
{
    let n = cs.len();
    let mut i: usize = n;
    proof {
        assert(cs@.take(n as int) =~= cs@);
    }
    while i > 0
        invariant
            i <= n,
            n == cs@.len(),
            spec_path_start(cs@) == spec_path_start(cs@.take(i as int)),
        decreases i,
    {
        i -= 1;
        proof {
            assert(cs@.take(i as int + 1).drop_last() =~= cs@.take(i as int));
            assert(cs@.take(i as int + 1).last() == cs@[i as int]);
        }
        if cs[i] == '/' {
            return Some(i + 1);
        }
    }
    proof {
        assert(cs@.take(0) =~= Seq::<char>::empty());
    }
    None
}

/// Split a database URL into the administrative URL — the same server,
/// database `postgres` — and the database name it points at.
#[verifier::loop_isolation(false)]
pub fn parse_db_name_from_url(url: &str) -> (r: Result<(String, String), AppError>)
    ensures
        r is Ok <==> spec_path_start(url@) is Some,
        r is Ok ==> r->Ok_0.0@ == url@.take(spec_path_start(url@)->0) + "postgres"@,
        r is Ok ==> r->Ok_0.1@ == spec_db_name(url@, spec_path_start(url@)->0),
        r is Err ==> r->Err_0 is BadRequest,
{
    let cs = crate::strutil::str_chars(url);
    let start = match path_start(&cs) {
        Some(i) => i,
        None => {
            return Err(AppError::BadRequest("DATABASE_URL: no path".to_owned()));
        },
    };
    let mut base: Vec<char> = Vec::new();
    let mut i: usize = 0;
    proof {
        assert(url@.take(0) =~= Seq::<char>::empty());
    }
    while i < start
        invariant
            i <= start,
            start <= cs@.len(),
            cs@ == url@,
            base@ == url@.take(i as int),
        decreases start - i,
    {
        base.push(cs[i]);
        proof {
            assert(url@.take(i as int + 1) =~= url@.take(i as int).push(url@[i as int]));
        }
        i += 1;
    }
    let mut admin = crate::strutil::chars_to_string(base);
    admin.append("postgres");
    let n = cs.len();
    let mut name: Vec<char> = Vec::new();
    let mut i: usize = start;
    proof {
        assert(url@.skip(start as int).skip(0) =~= url@.skip(start as int));
        assert(Seq::<char>::empty() + spec_before_query(url@.skip(start as int))
            =~= spec_before_query(url@.skip(start as int)));
    }
    while i < n
        invariant
            start <= i <= n,
            n == cs@.len(),
            cs@ == url@,
            name@ + spec_before_query(url@.skip(start as int).skip(i - start)) == spec_before_query(
                url@.skip(start as int),
            ),
        decreases n - i,
    {
        proof {
            assert(url@.skip(start as int).skip(i - start).drop_first() =~= url@.skip(
                start as int,
            ).skip(i - start + 1));
            assert(url@.skip(start as int).skip(i - start)[0] == url@[i as int]);
        }
        let c = cs[i];
        if c == '?' {
            proof {
                assert(name@ + Seq::<char>::empty() =~= name@);
            }
            return Ok((admin, crate::strutil::chars_to_string(name)));
        }
        name.push(c);
        i += 1;
    }
    proof {
        assert(url@.skip(start as int).skip(n - start) =~= Seq::<char>::empty());
        assert(name@ + Seq::<char>::empty() =~= name@);
    }
    Ok((admin, crate::strutil::chars_to_string(name)))
}

/// A URL with the same server and credentials but another database name;
/// the query string is kept.
#[verifier::loop_isolation(false)]
pub fn database_url_with_name(base_url: &str, new_db_name: &str) -> (r: Result<String, AppError>)
    ensures
        r is Ok <==> spec_path_start(base_url@) is Some,
        r is Ok ==> r->Ok_0@ == base_url@.take(spec_path_start(base_url@)->0) + new_db_name@
            + spec_from_query(base_url@.skip(spec_path_start(base_url@)->0)),
        r is Err ==> r->Err_0 is BadRequest,
{
    let cs = crate::strutil::str_chars(base_url);
    let start = match path_start(&cs) {
        Some(i) => i,
        None => {
            return Err(AppError::BadRequest("DATABASE_URL: no path".to_owned()));
        },
    };
    let mut base: Vec<char> = Vec::new();
    let mut i: usize = 0;
    proof {
        assert(base_url@.take(0) =~= Seq::<char>::empty());
    }
    while i < start
        invariant
            i <= start,
            start <= cs@.len(),
            cs@ == base_url@,
            base@ == base_url@.take(i as int),
        decreases start - i,
    {
        base.push(cs[i]);
        proof {
            assert(base_url@.take(i as int + 1) =~= base_url@.take(i as int).push(
                base_url@[i as int],
            ));
        }
        i += 1;
    }
    let mut out = crate::strutil::chars_to_string(base);
    out.append(new_db_name);
    let n = cs.len();
    let mut i: usize = start;
    proof {
        assert(base_url@.skip(start as int).skip(0) =~= base_url@.skip(start as int));
    }
    while i < n
        invariant
            start <= i <= n,
            n == cs@.len(),
            cs@ == base_url@,
            out@ == base_url@.take(start as int) + new_db_name@,
            spec_from_query(base_url@.skip(start as int)) == spec_from_query(
                base_url@.skip(start as int).skip(i - start),
            ),
        decreases n - i,
    {
        proof {
            assert(base_url@.skip(start as int).skip(i - start).drop_first() =~= base_url@.skip(
                start as int,
            ).skip(i - start + 1));
            assert(base_url@.skip(start as int).skip(i - start)[0] == base_url@[i as int]);
        }
        if cs[i] == '?' {
            let mut query: Vec<char> = Vec::new();
            let mut j: usize = i;
            while j < n
                invariant
                    i <= j <= n,
                    n == cs@.len(),
                    cs@ == base_url@,
                    query@ == base_url@.skip(i as int).take(j - i),
                decreases n - j,
            {
                query.push(cs[j]);
                proof {
                    assert(base_url@.skip(i as int).take(j - i + 1) =~= base_url@.skip(
                        i as int,
                    ).take(j - i).push(base_url@[j as int]));
                }
                j += 1;
            }
            proof {
                assert(base_url@.skip(i as int).take(n - i) =~= base_url@.skip(i as int));
                assert(spec_from_query(base_url@.skip(start as int).skip(i - start)) =~= base_url@.skip(
                    i as int,
                ));
            }
            let q = crate::strutil::chars_to_string(query);
            out.append(q.as_str());
            proof {
                let ghost rest = base_url@.skip(start as int).skip(i - start);
                assert(rest.len() > 0);
                assert(rest[0] == '?');
                assert(spec_from_query(rest) == rest);
                assert(rest =~= base_url@.skip(i as int));
                assert(spec_from_query(base_url@.skip(start as int)) =~= base_url@.skip(i as int));
                assert(out@ =~= base_url@.take(start as int) + new_db_name@ + spec_from_query(
                    base_url@.skip(start as int),
                ));
            }
            return Ok(out);
        }
        i += 1;
    }
    proof {
        assert(base_url@.skip(start as int).skip(n - start) =~= Seq::<char>::empty());
        assert(spec_from_query(Seq::<char>::empty()) =~= Seq::<char>::empty());
        assert(spec_from_query(base_url@.skip(start as int)) =~= Seq::<char>::empty());
        assert(out@ =~= base_url@.take(start as int) + new_db_name@ + spec_from_query(
            base_url@.skip(start as int),
        ));
    }
    Ok(out)
}

/// Quote an identifier, as for `CREATE DATABASE`, by doubling internal
/// double quotes.
pub fn quote_ident(name: &str) -> (r: String)
    ensures
        r@ == crate::sqlgen::spec_quoted(name@),
{
    crate::sqlgen::quoted(name)
}

/// What a package upsert must do.
pub struct UpsertPlan {
    /// The version the manifest ends at.
    pub new_version: i64,
    /// The prior manifest to copy into history at its version, when the
    /// semantic version string changed.
    pub history: Option<(JsonValue, i64)>,
}

/// Package version law: re-installing a manifest with the same semantic
/// version keeps the stored version and writes no history; a changed
/// semantic version advances the version by one and records the prior
/// manifest.
pub fn plan_upsert_package(current: Option<&(JsonValue, i64)>, incoming: &JsonValue) -> (r:
    UpsertPlan)
    requires
        current matches Some(c) ==> c.1 < i64::MAX,
    ensures
        current is None ==> r.new_version == 1 && r.history is None,
        current matches Some(c) ==> {
            if spec_obj_str(c.0@, "version"@) == spec_obj_str(incoming@, "version"@) {
                r.new_version == c.1 && r.history is None
            } else {
                r.new_version == c.1 + 1 && (r.history matches Some(h) && view_json(h.0) == c.0@
                    && h.1 == c.1)
            }
        },
{
    match current {
        None => UpsertPlan { new_version: 1, history: None },
        Some(c) => {
            let old_ver = obj_str(&c.0, "version");
            let new_ver = obj_str(incoming, "version");
            let same = match (old_ver, new_ver) {
                (Some(a), Some(b)) => str_eq(a.as_str(), b.as_str()),
                (None, None) => true,
                _ => false,
            };
            if same {
                UpsertPlan { new_version: c.1, history: None }
            } else {
                UpsertPlan { new_version: c.1 + 1, history: Some((c.0.deep_copy(), c.1)) }
            }
        },
    }
}

} // verus!
