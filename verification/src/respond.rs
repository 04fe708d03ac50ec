//! Response shaping: sensitive-column stripping, response-key case
//! conversion, and related-entity attachment, with the law that the
//! single-query and batch attachment forms agree.

use vstd::prelude::*;

use crate::case::{camel_of, to_camel_case};
use crate::json::{Json, JsonValue, view_json, view_json_pairs, view_json_seq, obj_value_of_opt};
use crate::resolved::{IncludeDirection, view_strs};
use crate::strutil::str_eq;

verus! {

/// The pairs of an object with every sensitive key removed.
pub open spec fn spec_strip_pairs(
    pairs: Seq<(Seq<char>, Json)>,
    sens: Seq<Seq<char>>,
) -> Seq<(Seq<char>, Json)>
    decreases pairs.len(),
{
    if pairs.len() == 0 {
        Seq::empty()
    } else {
        let rest = spec_strip_pairs(pairs.drop_first(), sens);
        if sens.contains(pairs[0].0) {
            rest
        } else {
            seq![pairs[0]] + rest
        }
    }
}

/// An object with every sensitive key removed; other values unchanged.
pub open spec fn spec_strip(v: Json, sens: Seq<Seq<char>>) -> Json {
    match v {
        Json::Obj(pairs) => Json::Obj(spec_strip_pairs(pairs, sens)),
        _ => v,
    }
}

/// Sensitive-column law: no key of a stripped object is sensitive.
pub proof fn lemma_strip_no_sensitive(pairs: Seq<(Seq<char>, Json)>, sens: Seq<Seq<char>>)
    ensures
        forall|i: int|
            0 <= i < spec_strip_pairs(pairs, sens).len() ==> !sens.contains(
                #[trigger] spec_strip_pairs(pairs, sens)[i].0,
            ),
    decreases pairs.len(),
{
    if pairs.len() > 0 {
        lemma_strip_no_sensitive(pairs.drop_first(), sens);
        let rest = spec_strip_pairs(pairs.drop_first(), sens);
        assert forall|i: int|
            0 <= i < spec_strip_pairs(pairs, sens).len() implies !sens.contains(
            #[trigger] spec_strip_pairs(pairs, sens)[i].0,
        ) by {
            if sens.contains(pairs[0].0) {
                assert(spec_strip_pairs(pairs, sens)[i] == rest[i]);
            } else if i > 0 {
                assert(spec_strip_pairs(pairs, sens)[i] == rest[i - 1]);
            }
        }
    }
}

/// Stripping keeps exactly the pairs whose key is not sensitive, in order.
pub proof fn lemma_strip_keeps_others(pairs: Seq<(Seq<char>, Json)>, sens: Seq<Seq<char>>)
    ensures
        forall|i: int|
            0 <= i < pairs.len() && !sens.contains(#[trigger] pairs[i].0)
                ==> spec_strip_pairs(pairs, sens).contains(pairs[i]),
    decreases pairs.len(),
{
    if pairs.len() > 0 {
        lemma_strip_keeps_others(pairs.drop_first(), sens);
        let rest = spec_strip_pairs(pairs.drop_first(), sens);
        assert forall|i: int|
            0 <= i < pairs.len() && !sens.contains(#[trigger] pairs[i].0) implies spec_strip_pairs(
            pairs,
            sens,
        ).contains(pairs[i]) by {
            if i == 0 {
                assert(spec_strip_pairs(pairs, sens)[0] == pairs[0]);
            } else {
                assert(pairs.drop_first()[i - 1] == pairs[i]);
                let j = choose|j: int| 0 <= j < rest.len() && rest[j] == pairs[i];
                if sens.contains(pairs[0].0) {
                    assert(spec_strip_pairs(pairs, sens)[j] == pairs[i]);
                } else {
                    assert(spec_strip_pairs(pairs, sens)[j + 1] == pairs[i]);
                }
            }
        }
    }
}

/// Remove the sensitive keys from a row object. Values are unchanged; a
/// non-object value passes through.
#[verifier::loop_isolation(false)]
pub fn strip_sensitive_columns(row: &JsonValue, sensitive: &Vec<String>) -> (r: JsonValue)
    ensures
        r@ == spec_strip(row@, view_strs(sensitive@)),
{
    match row {
        JsonValue::Obj(pairs) => {
            let ghost sens = view_strs(sensitive@);
            let n = pairs.len();
            let mut out: Vec<(String, JsonValue)> = Vec::new();
            let mut i: usize = 0;
            proof {
                crate::json::lemma_view_json_pairs(pairs@);
                assert(view_json_pairs(pairs@).skip(0) =~= view_json_pairs(pairs@));
                assert(view_json_pairs(out@) =~= Seq::<(Seq<char>, Json)>::empty());
                assert(Seq::<(Seq<char>, Json)>::empty() + spec_strip_pairs(
                    view_json_pairs(pairs@),
                    sens,
                ) =~= spec_strip_pairs(view_json_pairs(pairs@), sens));
            }
            while i < n
                invariant
                    i <= n,
                    n == pairs@.len(),
                    view_json_pairs(out@) + spec_strip_pairs(
                        view_json_pairs(pairs@).skip(i as int),
                        sens,
                    ) == spec_strip_pairs(view_json_pairs(pairs@), sens),
                decreases n - i,
            {
                proof {
                    crate::json::lemma_view_json_pairs(out@);
                    assert(view_json_pairs(pairs@).skip(i as int).drop_first() =~= view_json_pairs(
                        pairs@,
                    ).skip(i as int + 1));
                    assert(view_json_pairs(pairs@).skip(i as int)[0] == view_json_pairs(pairs@)[
                        i as int]);
                }
                let ghost prev = view_json_pairs(out@);
                if !contains_string_key(sensitive, pairs[i].0.as_str()) {
                    let k = pairs[i].0.clone();
                    let v = pairs[i].1.deep_copy();
                    out.push((k, v));
                    proof {
                        crate::json::lemma_view_json_pairs(out@);
                        assert(view_json_pairs(out@) =~= prev + seq![
                            view_json_pairs(pairs@)[i as int],
                        ]);
                    }
                }
                i += 1;
            }
            proof {
                assert(view_json_pairs(pairs@).skip(n as int) =~= Seq::<(Seq<char>, Json)>::empty());
                assert(view_json_pairs(out@) + Seq::<(Seq<char>, Json)>::empty() =~= view_json_pairs(
                    out@,
                ));
            }
            JsonValue::Obj(out)
        },
        _ => row.deep_copy(),
    }
}

/// Whether a vector of strings holds the given key.
fn contains_string_key(v: &Vec<String>, s: &str) -> (r: bool)
    ensures
        r == view_strs(v@).contains(s@),
{
    let n = v.len();
    let mut i: usize = 0;
    while i < n
        invariant
            i <= n,
            n == v@.len(),
            forall|j: int| 0 <= j < i ==> v@[j]@ != s@,
        decreases n - i,
    {
        if str_eq(v[i].as_str(), s) {
            proof {
                assert(view_strs(v@)[i as int] == s@);
            }
            return true;
        }
        i += 1;
    }
    proof {
        if view_strs(v@).contains(s@) {
            let j = choose|j: int| 0 <= j < view_strs(v@).len() && view_strs(v@)[j] == s@;
            assert(v@[j]@ != s@);
        }
    }
    false
}

/// The pairs of an object with every key converted to camelCase, in place.
pub open spec fn spec_camel_pairs(pairs: Seq<(Seq<char>, Json)>) -> Seq<(Seq<char>, Json)> {
    Seq::new(pairs.len(), |i: int| (camel_of(pairs[i].0), pairs[i].1))
}

/// An object with camelCase keys; other values unchanged.
pub open spec fn spec_camel_value(v: Json) -> Json {
    match v {
        Json::Obj(pairs) => Json::Obj(spec_camel_pairs(pairs)),
        _ => v,
    }
}

/// Convert the top-level keys of a row object to camelCase.
#[verifier::loop_isolation(false)]
pub fn value_keys_to_camel_case(row: &JsonValue) -> (r: JsonValue)
    ensures
        r@ == spec_camel_value(row@),
{
    match row {
        JsonValue::Obj(pairs) => {
            let n = pairs.len();
            let mut out: Vec<(String, JsonValue)> = Vec::new();
            let mut i: usize = 0;
            proof {
                crate::json::lemma_view_json_pairs(pairs@);
            }
            while i < n
                invariant
                    i <= n,
                    n == pairs@.len(),
                    out@.len() == i,
                    forall|j: int|
                        0 <= j < i ==> (#[trigger] out@[j]).0@ == camel_of(pairs@[j].0@)
                            && view_json(out@[j].1) == view_json(pairs@[j].1),
                decreases n - i,
            {
                let k = to_camel_case(pairs[i].0.as_str());
                let v = pairs[i].1.deep_copy();
                out.push((k, v));
                i += 1;
            }
            proof {
                crate::json::lemma_view_json_pairs(out@);
                assert(view_json_pairs(out@) =~= spec_camel_pairs(view_json_pairs(pairs@)));
            }
            JsonValue::Obj(out)
        },
        _ => row.deep_copy(),
    }
}

/// Strip an object's sensitive keys and camel-case the rest: the shape of
/// every object the API returns.
pub open spec fn spec_sanitize(v: Json, sens: Seq<Seq<char>>) -> Json {
    spec_camel_value(spec_strip(v, sens))
}

/// Sanitize one row for a response.
pub fn sanitize_row(row: &JsonValue, sensitive: &Vec<String>) -> (r: JsonValue)
    ensures
        r@ == spec_sanitize(row@, view_strs(sensitive@)),
{
    let stripped = strip_sensitive_columns(row, sensitive);
    value_keys_to_camel_case(&stripped)
}

/// The value of a key of an object row; a missing key reads as null.
pub open spec fn spec_obj_get_or_null(v: Json, k: Seq<char>) -> Json {
    match v {
        Json::Obj(pairs) => match obj_value_of_opt(pairs, k) {
            Some(x) => x,
            None => Json::Null,
        },
        _ => Json::Null,
    }
}

/// The related rows joined to a row: those whose join column holds the
/// row's key value.
pub open spec fn spec_matching(related: Seq<Json>, their_key: Seq<char>, key: Json) -> Seq<Json>
    decreases related.len(),
{
    if related.len() == 0 {
        Seq::empty()
    } else {
        let rest = spec_matching(related.drop_first(), their_key, key);
        if spec_obj_get_or_null(related[0], their_key) == key && !(spec_obj_get_or_null(
            related[0],
            their_key,
        ) is Null) {
            seq![related[0]] + rest
        } else {
            rest
        }
    }
}

/// The attached payload for one row: for to-many the sanitized matching
/// rows; for to-one the first sanitized match, or null.
pub open spec fn spec_attach_value(
    dir: IncludeDirection,
    matching: Seq<Json>,
    sens: Seq<Seq<char>>,
) -> Json {
    match dir {
        IncludeDirection::ToMany => Json::Arr(
            Seq::new(matching.len(), |i: int| spec_sanitize(matching[i], sens)),
        ),
        IncludeDirection::ToOne => if matching.len() == 0 {
            Json::Null
        } else {
            spec_sanitize(matching[0], sens)
        },
    }
}

/// A row with its attachment appended under the attachment name.
pub open spec fn spec_attach_row(
    row: Json,
    name: Seq<char>,
    dir: IncludeDirection,
    our_key: Seq<char>,
    their_key: Seq<char>,
    related: Seq<Json>,
    sens: Seq<Seq<char>>,
) -> Json {
    match row {
        Json::Obj(pairs) => {
            let key = spec_obj_get_or_null(row, our_key);
            let matching = spec_matching(related, their_key, key);
            Json::Obj(pairs.push((name, spec_attach_value(dir, matching, sens))))
        },
        _ => row,
    }
}

/// Look up a key of a row object.
#[verifier::loop_isolation(false)]
fn obj_get<'a>(v: &'a JsonValue, k: &str) -> (r: Option<&'a JsonValue>)
    ensures
        (match v@ {
            Json::Obj(pairs) => r is Some <==> obj_value_of_opt(pairs, k@) is Some,
            _ => r is None,
        }),
        r is Some ==> (match v@ {
            Json::Obj(pairs) => view_json(*r->0) == obj_value_of_opt(pairs, k@)->0,
            _ => true,
        }),
{
    match v {
        JsonValue::Obj(pairs) => {
            proof {
                crate::json::lemma_view_json_pairs(pairs@);
                assert(view_json_pairs(pairs@).skip(0) =~= view_json_pairs(pairs@));
            }
            let n = pairs.len();
            let mut i: usize = 0;
            while i < n
                invariant
                    i <= n,
                    n == pairs@.len(),
                    obj_value_of_opt(view_json_pairs(pairs@), k@) == obj_value_of_opt(
                        view_json_pairs(pairs@).skip(i as int),
                        k@,
                    ),
                decreases n - i,
            {
                proof {
                    assert(view_json_pairs(pairs@).skip(i as int).drop_first() =~= view_json_pairs(
                        pairs@,
                    ).skip(i as int + 1));
                    assert(view_json_pairs(pairs@).skip(i as int)[0] == view_json_pairs(pairs@)[
                        i as int]);
                }
                if str_eq(pairs[i].0.as_str(), k) {
                    return Some(&pairs[i].1);
                }
                i += 1;
            }
            proof {
                assert(view_json_pairs(pairs@).skip(n as int) =~= Seq::<(Seq<char>, Json)>::empty());
            }
            None
        },
        _ => None,
    }
}

/// Attach related rows to each row, the batch form: the related rows were
/// fetched in one query, and each row receives, under the attachment name,
/// the sanitized related rows whose join column matches its key.
#[verifier::loop_isolation(false)]
pub fn attach_includes(
    rows: &Vec<JsonValue>,
    name: &str,
    direction: IncludeDirection,
    our_key: &str,
    their_key: &str,
    related_rows: &Vec<JsonValue>,
    related_sensitive: &Vec<String>,
) -> (r: Vec<JsonValue>)
    ensures
        r@.len() == rows@.len(),
        forall|i: int|
            0 <= i < rows@.len() ==> view_json(#[trigger] r@[i]) == spec_attach_row(
                view_json(rows@[i]),
                name@,
                direction,
                our_key@,
                their_key@,
                view_json_seq(related_rows@),
                view_strs(related_sensitive@),
            ),
{
    let n = rows.len();
    let mut out: Vec<JsonValue> = Vec::new();
    let mut i: usize = 0;
    proof {
        crate::json::lemma_view_json_seq(rows@);
    }
    while i < n
        invariant
            i <= n,
            n == rows@.len(),
            out@.len() == i,
            forall|j: int|
                0 <= j < i ==> view_json(#[trigger] out@[j]) == spec_attach_row(
                    view_json(rows@[j]),
                    name@,
                    direction,
                    our_key@,
                    their_key@,
                    view_json_seq(related_rows@),
                    view_strs(related_sensitive@),
                ),
        decreases n - i,
    {
        let row = &rows[i];
        match row {
            JsonValue::Obj(pairs) => {
                let key: JsonValue = match obj_get(row, our_key) {
                    Some(v) => v.deep_copy(),
                    None => JsonValue::Null,
                };
                proof {
                    assert(view_json(key) == spec_obj_get_or_null(view_json(rows@[i as int]), our_key@));
                }
                let matching = matching_rows(related_rows, their_key, &key);
                let attached: JsonValue = match direction {
                    IncludeDirection::ToMany => {
                        let m = matching.len();
                        let mut arr: Vec<JsonValue> = Vec::new();
                        let mut j: usize = 0;
                        while j < m
                            invariant
                                j <= m,
                                m == matching@.len(),
                                arr@.len() == j,
                                forall|t: int|
                                    0 <= t < j ==> view_json(#[trigger] arr@[t]) == spec_sanitize(
                                        view_json(matching@[t]),
                                        view_strs(related_sensitive@),
                                    ),
                            decreases m - j,
                        {
                            arr.push(sanitize_row(&matching[j], related_sensitive));
                            j += 1;
                        }
                        proof {
                            crate::json::lemma_view_json_seq(arr@);
                            crate::json::lemma_view_json_seq(matching@);
                            assert(view_json_seq(arr@) =~= Seq::new(
                                view_json_seq(matching@).len(),
                                |t: int|
                                    spec_sanitize(
                                        view_json_seq(matching@)[t],
                                        view_strs(related_sensitive@),
                                    ),
                            ));
                        }
                        JsonValue::Arr(arr)
                    },
                    IncludeDirection::ToOne => {
                        if matching.len() == 0 {
                            JsonValue::Null
                        } else {
                            proof {
                                crate::json::lemma_view_json_seq(matching@);
                            }
                            sanitize_row(&matching[0], related_sensitive)
                        }
                    },
                };
                let mut new_pairs: Vec<(String, JsonValue)> = Vec::new();
                let np = pairs.len();
                let mut j: usize = 0;
                while j < np
                    invariant
                        j <= np,
                        np == pairs@.len(),
                        new_pairs@.len() == j,
                        forall|t: int|
                            0 <= t < j ==> (#[trigger] new_pairs@[t]).0@ == pairs@[t].0@
                                && view_json(new_pairs@[t].1) == view_json(pairs@[t].1),
                    decreases np - j,
                {
                    let k = pairs[j].0.clone();
                    let v = pairs[j].1.deep_copy();
                    new_pairs.push((k, v));
                    j += 1;
                }
                proof {
                    crate::json::lemma_view_json_pairs(new_pairs@);
                }
                new_pairs.push((name.to_owned(), attached));
                let built = JsonValue::Obj(new_pairs);
                proof {
                    crate::json::lemma_view_json_pairs(pairs@);
                    crate::json::lemma_view_json_pairs(new_pairs@);
                    crate::json::lemma_view_json_seq(matching@);
                    assert(view_json(attached) == spec_attach_value(
                        direction,
                        view_json_seq(matching@),
                        view_strs(related_sensitive@),
                    ));
                    assert(view_json_pairs(new_pairs@) =~= view_json_pairs(pairs@).push(
                        (name@, view_json(attached)),
                    ));
                    assert(view_json(built) =~~= spec_attach_row(
                        view_json(rows@[i as int]),
                        name@,
                        direction,
                        our_key@,
                        their_key@,
                        view_json_seq(related_rows@),
                        view_strs(related_sensitive@),
                    ));
                }
                out.push(built);
            },
            _ => {
                let copy = row.deep_copy();
                proof {
                    crate::json::lemma_view_ctors(rows@[i as int]);
                }
                out.push(copy);
            },
        }
        i += 1;
    }
    out
}

/// Collect the related rows whose join column holds the given key value.
#[verifier::loop_isolation(false)]
fn matching_rows(related: &Vec<JsonValue>, their_key: &str, key: &JsonValue) -> (r: Vec<JsonValue>)
    ensures
        view_json_seq(r@) == spec_matching(view_json_seq(related@), their_key@, view_json(*key)),
{
    let n = related.len();
    let mut out: Vec<JsonValue> = Vec::new();
    let mut i: usize = 0;
    proof {
        crate::json::lemma_view_json_seq(related@);
        crate::json::lemma_view_json_seq(out@);
        assert(view_json_seq(related@).skip(0) =~= view_json_seq(related@));
        assert(view_json_seq(out@) =~= Seq::<Json>::empty());
        assert(Seq::<Json>::empty() + spec_matching(
            view_json_seq(related@),
            their_key@,
            view_json(*key),
        ) =~= spec_matching(view_json_seq(related@), their_key@, view_json(*key)));
    }
    while i < n
        invariant
            i <= n,
            n == related@.len(),
            view_json_seq(out@) + spec_matching(
                view_json_seq(related@).skip(i as int),
                their_key@,
                view_json(*key),
            ) == spec_matching(view_json_seq(related@), their_key@, view_json(*key)),
        decreases n - i,
    {
        proof {
            crate::json::lemma_view_json_seq(out@);
            assert(view_json_seq(related@).skip(i as int).drop_first() =~= view_json_seq(
                related@,
            ).skip(i as int + 1));
            assert(view_json_seq(related@).skip(i as int)[0] == view_json_seq(related@)[i as int]);
        }
        let ghost prev = view_json_seq(out@);
        let theirs: JsonValue = match obj_get(&related[i], their_key) {
            Some(v) => v.deep_copy(),
            None => JsonValue::Null,
        };
        proof {
            assert(view_json(theirs) == spec_obj_get_or_null(
                view_json(related@[i as int]),
                their_key@,
            ));
        }
        let is_null = match &theirs {
            JsonValue::Null => true,
            _ => false,
        };
        if !is_null && theirs.deep_eq(key) {
            out.push(related[i].deep_copy());
            proof {
                crate::json::lemma_view_json_seq(out@);
                assert(view_json_seq(out@) =~= prev + seq![view_json(related@[i as int])]);
            }
        } else {
            proof {
                crate::json::lemma_view_ctors(theirs);
            }
        }
        i += 1;
    }
    proof {
        assert(view_json_seq(related@).skip(n as int) =~= Seq::<Json>::empty());
        assert(view_json_seq(out@) + Seq::<Json>::empty() =~= view_json_seq(out@));
    }
    out
}

/// The pairs of a single-query row with the raw attachment column, at its
/// position, replaced by its sanitized form.
pub open spec fn spec_post_pairs(
    pairs: Seq<(Seq<char>, Json)>,
    name: Seq<char>,
    dir: IncludeDirection,
    sens: Seq<Seq<char>>,
) -> Seq<(Seq<char>, Json)>
    decreases pairs.len(),
{
    if pairs.len() == 0 {
        Seq::empty()
    } else if pairs[0].0 == name {
        seq![(pairs[0].0, spec_post_value(pairs[0].1, dir, sens))] + pairs.drop_first()
    } else {
        seq![pairs[0]] + spec_post_pairs(pairs.drop_first(), name, dir, sens)
    }
}

/// The sanitized form of a raw attachment column value: each object of a
/// to-many array sanitized, a to-one object sanitized, anything else
/// unchanged.
pub open spec fn spec_post_value(v: Json, dir: IncludeDirection, sens: Seq<Seq<char>>) -> Json {
    match v {
        Json::Arr(items) => Json::Arr(Seq::new(items.len(), |i: int| spec_sanitize(items[i], sens))),
        Json::Obj(pairs) => spec_sanitize(v, sens),
        _ => v,
    }
}

/// Attachment-forms law: a row produced by the single-query form — the
/// raw matching rows appended under the attachment name — post-processes
/// to exactly the row the batch form produces, except that a to-one
/// attachment with no match reads as null in both forms and that
/// non-object matches pass through sanitation unchanged.
pub proof fn lemma_include_forms_agree(
    pairs: Seq<(Seq<char>, Json)>,
    name: Seq<char>,
    dir: IncludeDirection,
    our_key: Seq<char>,
    their_key: Seq<char>,
    related: Seq<Json>,
    sens: Seq<Seq<char>>,
)
    requires
        forall|i: int| 0 <= i < pairs.len() ==> (#[trigger] pairs[i].0) != name,
        dir is ToOne ==> (spec_matching(
            related,
            their_key,
            spec_obj_get_or_null(Json::Obj(pairs), our_key),
        ).len() == 0 || spec_matching(
            related,
            their_key,
            spec_obj_get_or_null(Json::Obj(pairs), our_key),
        )[0] is Obj),
    ensures
        Json::Obj(
            spec_post_pairs(
                pairs.push(
                    (
                        name,
                        spec_raw_include_value(
                            dir,
                            spec_matching(
                                related,
                                their_key,
                                spec_obj_get_or_null(Json::Obj(pairs), our_key),
                            ),
                        ),
                    ),
                ),
                name,
                dir,
                sens,
            ),
        ) == spec_attach_row(Json::Obj(pairs), name, dir, our_key, their_key, related, sens),
{
    let key = spec_obj_get_or_null(Json::Obj(pairs), our_key);
    let matching = spec_matching(related, their_key, key);
    let raw = spec_raw_include_value(dir, matching);
    let appended = pairs.push((name, raw));
    lemma_post_pairs_appended(pairs, name, raw, dir, sens);
    match dir {
        IncludeDirection::ToMany => {
            assert(spec_post_value(raw, dir, sens) == spec_attach_value(dir, matching, sens));
            assert(spec_post_pairs(appended, name, dir, sens) =~= pairs.push(
                (name, spec_attach_value(dir, matching, sens)),
            ));
        },
        IncludeDirection::ToOne => {
            if matching.len() == 0 {
                assert(raw is Null);
                assert(spec_post_value(raw, dir, sens) == Json::Null);
            } else {
                assert(raw == matching[0]);
                assert(spec_post_value(raw, dir, sens) == spec_sanitize(matching[0], sens));
            }
            assert(spec_post_pairs(appended, name, dir, sens) =~= pairs.push(
                (name, spec_attach_value(dir, matching, sens)),
            ));
        },
    }
}

/// What the correlated subquery of the single-query form returns for one
/// row: the matching related rows as an array for to-many, the first
/// match (or null) for to-one.
pub open spec fn spec_raw_include_value(dir: IncludeDirection, matching: Seq<Json>) -> Json {
    match dir {
        IncludeDirection::ToMany => Json::Arr(matching),
        IncludeDirection::ToOne => if matching.len() == 0 {
            Json::Null
        } else {
            matching[0]
        },
    }
}

/// Post-processing a row whose last pair is the attachment column rewrites
/// exactly that pair.
proof fn lemma_post_pairs_appended(
    pairs: Seq<(Seq<char>, Json)>,
    name: Seq<char>,
    raw: Json,
    dir: IncludeDirection,
    sens: Seq<Seq<char>>,
)
    requires
        forall|i: int| 0 <= i < pairs.len() ==> (#[trigger] pairs[i].0) != name,
    ensures
        spec_post_pairs(pairs.push((name, raw)), name, dir, sens) == pairs.push(
            (name, spec_post_value(raw, dir, sens)),
        ),
    decreases pairs.len(),
{
    let appended = pairs.push((name, raw));
    if pairs.len() == 0 {
        assert(appended[0] == (name, raw));
        assert(appended.drop_first() =~= Seq::<(Seq<char>, Json)>::empty());
        assert(spec_post_pairs(appended, name, dir, sens) =~= pairs.push(
            (name, spec_post_value(raw, dir, sens)),
        ));
    } else {
        lemma_post_pairs_appended(pairs.drop_first(), name, raw, dir, sens);
        assert(appended[0] == pairs[0]);
        assert(appended.drop_first() =~= pairs.drop_first().push((name, raw)));
        assert(spec_post_pairs(appended, name, dir, sens) =~= pairs.push(
            (name, spec_post_value(raw, dir, sens)),
        ));
    }
}

/// Post-process the rows of a single-query list: sanitize the raw
/// attachment column of each row in place.
#[verifier::loop_isolation(false)]
pub fn post_process_include_columns(
    rows: &Vec<JsonValue>,
    name: &str,
    direction: IncludeDirection,
    related_sensitive: &Vec<String>,
) -> (r: Vec<JsonValue>)
    ensures
        r@.len() == rows@.len(),
        forall|i: int|
            0 <= i < rows@.len() ==> view_json(#[trigger] r@[i]) == (match view_json(rows@[i]) {
                Json::Obj(pairs) => Json::Obj(
                    spec_post_pairs(pairs, name@, direction, view_strs(related_sensitive@)),
                ),
                _ => view_json(rows@[i]),
            }),
{
    let n = rows.len();
    let mut out: Vec<JsonValue> = Vec::new();
    let mut i: usize = 0;
    proof {
        crate::json::lemma_view_json_seq(rows@);
    }
    while i < n
        invariant
            i <= n,
            n == rows@.len(),
            out@.len() == i,
            forall|j: int|
                0 <= j < i ==> view_json(#[trigger] out@[j]) == (match view_json(rows@[j]) {
                    Json::Obj(pairs) => Json::Obj(
                        spec_post_pairs(pairs, name@, direction, view_strs(related_sensitive@)),
                    ),
                    _ => view_json(rows@[j]),
                }),
        decreases n - i,
    {
        match &rows[i] {
            JsonValue::Obj(pairs) => {
                let ghost vpairs = view_json_pairs(pairs@);
                let np = pairs.len();
                let mut new_pairs: Vec<(String, JsonValue)> = Vec::new();
                let mut found = false;
                let mut j: usize = 0;
                proof {
                    crate::json::lemma_view_json_pairs(pairs@);
                    assert(vpairs.skip(0) =~= vpairs);
                    crate::json::lemma_view_json_pairs(new_pairs@);
                    assert(view_json_pairs(new_pairs@) + spec_post_pairs(
                        vpairs.skip(0),
                        name@,
                        direction,
                        view_strs(related_sensitive@),
                    ) =~= spec_post_pairs(vpairs, name@, direction, view_strs(related_sensitive@)));
                }
                while j < np
                    invariant
                        j <= np,
                        np == pairs@.len(),
                        vpairs == view_json_pairs(pairs@),
                        vpairs.len() == np,
                        !found ==> view_json_pairs(new_pairs@) + spec_post_pairs(
                            vpairs.skip(j as int),
                            name@,
                            direction,
                            view_strs(related_sensitive@),
                        ) == spec_post_pairs(vpairs, name@, direction, view_strs(related_sensitive@)),
                        found ==> view_json_pairs(new_pairs@) + vpairs.skip(j as int)
                            == spec_post_pairs(
                            vpairs,
                            name@,
                            direction,
                            view_strs(related_sensitive@),
                        ),
                    decreases np - j,
                {
                    proof {
                        crate::json::lemma_view_json_pairs(new_pairs@);
                        assert(vpairs.skip(j as int).drop_first() =~= vpairs.skip(j as int + 1));
                        assert(vpairs.skip(j as int)[0] == vpairs[j as int]);
                    }
                    let ghost prev = view_json_pairs(new_pairs@);
                    if !found && str_eq(pairs[j].0.as_str(), name) {
                        let k = pairs[j].0.clone();
                        let v = post_value(&pairs[j].1, direction, related_sensitive);
                        new_pairs.push((k, v));
                        found = true;
                        proof {
                            crate::json::lemma_view_json_pairs(new_pairs@);
                            assert(view_json_pairs(new_pairs@) =~= prev + seq![
                                (
                                    vpairs[j as int].0,
                                    spec_post_value(
                                        vpairs[j as int].1,
                                        direction,
                                        view_strs(related_sensitive@),
                                    ),
                                ),
                            ]);
                        }
                    } else {
                        let k = pairs[j].0.clone();
                        let v = pairs[j].1.deep_copy();
                        new_pairs.push((k, v));
                        proof {
                            crate::json::lemma_view_json_pairs(new_pairs@);
                            assert(view_json_pairs(new_pairs@) =~= prev + seq![vpairs[j as int]]);
                        }
                    }
                    j += 1;
                }
                proof {
                    assert(vpairs.skip(np as int) =~= Seq::<(Seq<char>, Json)>::empty());
                    assert(view_json_pairs(new_pairs@) + Seq::<(Seq<char>, Json)>::empty()
                        =~= view_json_pairs(new_pairs@));
                }
                out.push(JsonValue::Obj(new_pairs));
            },
            _ => {
                proof {
                    crate::json::lemma_view_ctors(rows@[i as int]);
                }
                out.push(rows[i].deep_copy());
            },
        }
        i += 1;
    }
    out
}

/// Sanitize one raw attachment value.
fn post_value(v: &JsonValue, direction: IncludeDirection, related_sensitive: &Vec<String>) -> (r:
    JsonValue)
    ensures
        r@ == spec_post_value(v@, direction, view_strs(related_sensitive@)),
{
    match v {
        JsonValue::Arr(items) => {
            proof {
                crate::json::lemma_view_json_seq(items@);
            }
            let m = items.len();
            let mut arr: Vec<JsonValue> = Vec::new();
            let mut j: usize = 0;
            #[verifier::loop_isolation(false)]
            while j < m
                invariant
                    j <= m,
                    m == items@.len(),
                    arr@.len() == j,
                    forall|t: int|
                        0 <= t < j ==> view_json(#[trigger] arr@[t]) == spec_sanitize(
                            view_json(items@[t]),
                            view_strs(related_sensitive@),
                        ),
                decreases m - j,
            {
                arr.push(sanitize_row(&items[j], related_sensitive));
                j += 1;
            }
            let built = JsonValue::Arr(arr);
            proof {
                crate::json::lemma_view_json_seq(arr@);
                assert(view_json_seq(arr@) =~= Seq::new(
                    view_json_seq(items@).len(),
                    |t: int|
                        spec_sanitize(view_json_seq(items@)[t], view_strs(related_sensitive@)),
                ));
                assert(view_json(built) =~~= spec_post_value(
                    v@,
                    direction,
                    view_strs(related_sensitive@),
                ));
            }
            built
        },
        JsonValue::Obj(_) => sanitize_row(v, related_sensitive),
        _ => {
            let copy = v.deep_copy();
            proof {
                crate::json::lemma_view_ctors(*v);
            }
            copy
        },
    }
}

} // verus!
