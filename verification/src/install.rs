//! Package installation planning: the order configuration kinds are
//! applied in, the schema ids stamped onto records that omit them, and the
//! manifest fields an install requires.

use vstd::prelude::*;
use vstd::string::*;

use crate::error::AppError;
use crate::json::{Json, JsonValue, view_json, view_json_pairs, view_json_seq};
use crate::store::spec_obj_str;
use crate::strutil::str_eq;

verus! {

/// The configuration kinds a package bundle may carry, in the apply
/// order: a kind is applied only after everything it depends on.
pub fn config_apply_order() -> (r: Vec<&'static str>)
    ensures
        r@.len() == 7,
        r@[0]@ == "schemas"@,
        r@[1]@ == "enums"@,
        r@[2]@ == "tables"@,
        r@[3]@ == "columns"@,
        r@[4]@ == "indexes"@,
        r@[5]@ == "relationships"@,
        r@[6]@ == "api_entities"@,
{
    let mut out: Vec<&'static str> = Vec::new();
    out.push("schemas");
    out.push("enums");
    out.push("tables");
    out.push("columns");
    out.push("indexes");
    out.push("relationships");
    out.push("api_entities");
    out
}

/// The kinds that must be applied before the given kind.
pub fn dependencies(kind: &str) -> (r: Vec<&'static str>)
    ensures
        forall|i: int| 0 <= i < r@.len() ==> spec_depends_on(kind@, #[trigger] r@[i]@),
{
    let mut out: Vec<&'static str> = Vec::new();
    if str_eq(kind, "enums") {
        out.push("schemas");
    } else if str_eq(kind, "tables") {
        out.push("schemas");
    } else if str_eq(kind, "columns") {
        out.push("tables");
    } else if str_eq(kind, "indexes") {
        out.push("schemas");
        out.push("tables");
    } else if str_eq(kind, "relationships") {
        out.push("schemas");
        out.push("tables");
        out.push("columns");
    } else if str_eq(kind, "api_entities") {
        out.push("tables");
    }
    out
}

/// The dependency relation between configuration kinds.
pub open spec fn spec_depends_on(kind: Seq<char>, dep: Seq<char>) -> bool {
    if kind == "enums"@ {
        dep == "schemas"@
    } else if kind == "tables"@ {
        dep == "schemas"@
    } else if kind == "columns"@ {
        dep == "tables"@
    } else if kind == "indexes"@ {
        dep == "schemas"@ || dep == "tables"@
    } else if kind == "relationships"@ {
        dep == "schemas"@ || dep == "tables"@ || dep == "columns"@
    } else if kind == "api_entities"@ {
        dep == "tables"@
    } else {
        false
    }
}

/// Ordering law: in the apply order, every dependency of a kind stands
/// before the kind itself.
pub proof fn lemma_apply_order_respects_dependencies(order: Seq<Seq<char>>)
    requires
        order.len() == 7,
        order[0] == "schemas"@,
        order[1] == "enums"@,
        order[2] == "tables"@,
        order[3] == "columns"@,
        order[4] == "indexes"@,
        order[5] == "relationships"@,
        order[6] == "api_entities"@,
    ensures
        forall|i: int, j: int|
            0 <= i < order.len() && 0 <= j < order.len() && #[trigger] spec_depends_on(
                order[i],
                order[j],
            ) ==> j < i,
{
    reveal_strlit("schemas");
    reveal_strlit("enums");
    reveal_strlit("tables");
    reveal_strlit("columns");
    reveal_strlit("indexes");
    reveal_strlit("relationships");
    reveal_strlit("api_entities");
    assert forall|i: int, j: int|
        0 <= i < order.len() && 0 <= j < order.len() && #[trigger] spec_depends_on(
            order[i],
            order[j],
        ) implies j < i by {
        assert(order[0].len() == 7);
        assert(order[1].len() == 5);
        assert(order[2].len() == 6);
        assert(order[3].len() == 7);
        assert(order[4].len() == 7);
        assert(order[5].len() == 13);
        assert(order[6].len() == 12);
        assert(order[0][0] == 's');
        assert(order[3][0] == 'c');
        assert(order[4][0] == 'i');
    }
}

/// A record with the default schema id stamped on, where it omits one.
pub open spec fn spec_with_schema_id(v: Json, schema_id: Seq<char>) -> Json {
    match v {
        Json::Obj(pairs) => if crate::json::obj_has_key(pairs, "schema_id"@) {
            v
        } else {
            Json::Obj(pairs.push(("schema_id"@, Json::Str(schema_id))))
        },
        _ => v,
    }
}

/// Stamp the default schema id onto each record that omits one.
#[verifier::loop_isolation(false)]
pub fn inject_schema_id(body: &Vec<JsonValue>, schema_id: &str) -> (r: Vec<JsonValue>)
    ensures
        r@.len() == body@.len(),
        forall|i: int|
            0 <= i < body@.len() ==> view_json(#[trigger] r@[i]) == spec_with_schema_id(
                view_json(body@[i]),
                schema_id@,
            ),
{
    let n = body.len();
    let mut out: Vec<JsonValue> = Vec::new();
    let mut i: usize = 0;
    while i < n
        invariant
            i <= n,
            n == body@.len(),
            out@.len() == i,
            forall|j: int|
                0 <= j < i ==> view_json(#[trigger] out@[j]) == spec_with_schema_id(
                    view_json(body@[j]),
                    schema_id@,
                ),
        decreases n - i,
    {
        let stamped = with_key_stamped(&body[i], "schema_id", schema_id);
        out.push(stamped);
        i += 1;
    }
    out
}

/// A record with the default stamped under the given key when absent.
pub open spec fn spec_with_key(v: Json, key: Seq<char>, value: Seq<char>) -> Json {
    match v {
        Json::Obj(pairs) => if crate::json::obj_has_key(pairs, key) {
            v
        } else {
            Json::Obj(pairs.push((key, Json::Str(value))))
        },
        _ => v,
    }
}

/// Stamp a string value under a key, when the record does not carry it.
#[verifier::loop_isolation(false)]
fn with_key_stamped(v: &JsonValue, key: &str, value: &str) -> (r: JsonValue)
    ensures
        r@ == spec_with_key(v@, key@, value@),
{
    match v {
        JsonValue::Obj(pairs) => {
            proof {
                crate::json::lemma_view_json_pairs(pairs@);
            }
            let n = pairs.len();
            let mut present = false;
            let mut i: usize = 0;
            while i < n
                invariant
                    i <= n,
                    n == pairs@.len(),
                    present ==> crate::json::obj_has_key(view_json_pairs(pairs@), key@),
                    !present ==> forall|j: int| 0 <= j < i ==> pairs@[j].0@ != key@,
                decreases n - i + (if present {
                    0int
                } else {
                    1int
                }),
            {
                if str_eq(pairs[i].0.as_str(), key) {
                    proof {
                        assert(view_json_pairs(pairs@)[i as int].0 == key@);
                    }
                    present = true;
                }
                if present {
                    i = n;
                } else {
                    i += 1;
                }
            }
            if present {
                v.deep_copy()
            } else {
                proof {
                    if crate::json::obj_has_key(view_json_pairs(pairs@), key@) {
                        let j = choose|j: int|
                            0 <= j < view_json_pairs(pairs@).len() && view_json_pairs(pairs@)[j].0
                                == key@;
                        assert(pairs@[j].0@ != key@);
                    }
                }
                let copied = v.deep_copy();
                match copied {
                    JsonValue::Obj(mut out) => {
                        let ghost before = out@;
                        out.push((key.to_owned(), JsonValue::Str(value.to_owned())));
                        proof {
                            crate::json::lemma_view_json_pairs(out@);
                            crate::json::lemma_view_json_pairs(before);
                            assert(view_json_pairs(out@) =~= view_json_pairs(pairs@).push(
                                (key@, Json::Str(value@)),
                            ));
                        }
                        JsonValue::Obj(out)
                    },
                    other => other,
                }
            }
        },
        _ => v.deep_copy(),
    }
}

/// Stamp the default schema id onto both relationship sides that omit it.
#[verifier::loop_isolation(false)]
pub fn inject_relationship_schema_ids(body: &Vec<JsonValue>, schema_id: &str) -> (r: Vec<JsonValue>)
    ensures
        r@.len() == body@.len(),
        forall|i: int|
            0 <= i < body@.len() ==> view_json(#[trigger] r@[i]) == spec_with_key(
                spec_with_key(view_json(body@[i]), "from_schema_id"@, schema_id@),
                "to_schema_id"@,
                schema_id@,
            ),
{
    let n = body.len();
    let mut out: Vec<JsonValue> = Vec::new();
    let mut i: usize = 0;
    while i < n
        invariant
            i <= n,
            n == body@.len(),
            out@.len() == i,
            forall|j: int|
                0 <= j < i ==> view_json(#[trigger] out@[j]) == spec_with_key(
                    spec_with_key(view_json(body@[j]), "from_schema_id"@, schema_id@),
                    "to_schema_id"@,
                    schema_id@,
                ),
        decreases n - i,
    {
        let once = with_key_stamped(&body[i], "from_schema_id", schema_id);
        let twice = with_key_stamped(&once, "to_schema_id", schema_id);
        out.push(twice);
        i += 1;
    }
    out
}

/// The manifest fields an install requires.
pub struct ManifestFields {
    pub id: String,
    pub name: String,
    pub version: String,
    pub schema: String,
}

/// Check a package manifest: it must be an object carrying string `id`,
/// `name`, `version` and `schema` fields.
pub fn manifest_fields(manifest: &JsonValue) -> (r: Result<ManifestFields, AppError>)
    ensures
        r is Ok <==> (spec_obj_str(manifest@, "id"@) is Some && spec_obj_str(manifest@, "name"@)
            is Some && spec_obj_str(manifest@, "version"@) is Some && spec_obj_str(
            manifest@,
            "schema"@,
        ) is Some),
        r is Ok ==> r->Ok_0.id@ == spec_obj_str(manifest@, "id"@)->0 && r->Ok_0.name@
            == spec_obj_str(manifest@, "name"@)->0 && r->Ok_0.version@ == spec_obj_str(
            manifest@,
            "version"@,
        )->0 && r->Ok_0.schema@ == spec_obj_str(manifest@, "schema"@)->0,
        r is Err ==> r->Err_0 is BadRequest,
{
    let id = match crate::store::manifest_str(manifest, "id") {
        Some(s) => s,
        None => {
            return Err(AppError::BadRequest("manifest must have 'id' (string)".to_owned()));
        },
    };
    let name = match crate::store::manifest_str(manifest, "name") {
        Some(s) => s,
        None => {
            return Err(AppError::BadRequest("manifest must have 'name' (string)".to_owned()));
        },
    };
    let version = match crate::store::manifest_str(manifest, "version") {
        Some(s) => s,
        None => {
            return Err(AppError::BadRequest("manifest must have 'version' (string)".to_owned()));
        },
    };
    let schema = match crate::store::manifest_str(manifest, "schema") {
        Some(s) => s,
        None => {
            return Err(
                AppError::BadRequest(
                    "manifest must have 'schema' (string) - the schema name for all configs".to_owned(),
                ),
            );
        },
    };
    Ok(ManifestFields { id, name, version, schema })
}

/// The schema id used when the manifest provides the schema name.
pub fn default_manifest_schema_id() -> (r: &'static str)
    ensures
        r@ == "default"@,
{
    "default"
}

/// The synthesized schema record of a package: the manifest's schema name
/// under the default id.
pub fn manifest_schema_record(schema_name: &str) -> (r: JsonValue)
    ensures
        r@ == Json::Obj(
            seq![("id"@, Json::Str("default"@)), ("name"@, Json::Str(schema_name@))],
        ),
{
    let mut pairs: Vec<(String, JsonValue)> = Vec::new();
    pairs.push(("id".to_owned(), JsonValue::Str("default".to_owned())));
    pairs.push(("name".to_owned(), JsonValue::Str(schema_name.to_owned())));
    let r = JsonValue::Obj(pairs);
    proof {
        crate::json::lemma_view_json_pairs(r->Obj_0@);
        assert(view_json_pairs(r->Obj_0@) =~= seq![
            ("id"@, Json::Str("default"@)),
            ("name"@, Json::Str(schema_name@)),
        ]);
    }
    r
}

} // verus!
