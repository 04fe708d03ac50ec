//! The response envelope: list responses carry their count, single
//! responses the object, errors the typed code and message.

use vstd::prelude::*;
use vstd::string::*;

use crate::error::AppError;
use crate::json::{Json, JsonValue, view_json, view_json_pairs, view_json_seq};

verus! {

/// The metadata of a list response.
pub struct MetaCount {
    pub count: u64,
}

/// A single-object response body.
pub struct SuccessOne {
    pub data: JsonValue,
}

/// A list response body: the rows and their count.
pub struct SuccessMany {
    pub data: Vec<JsonValue>,
    pub meta: MetaCount,
}

/// Build a list response: `{ data: [...], meta: { count } }`.
pub fn success_many(data: Vec<JsonValue>) -> (r: SuccessMany)
    ensures
        view_json_seq(r.data@) == view_json_seq(data@),
        r.meta.count == data@.len(),
{
    let count = data.len() as u64;
    SuccessMany { data, meta: MetaCount { count } }
}

/// Build a single response: `{ data: {...} }`.
pub fn success_one(data: JsonValue) -> (r: SuccessOne)
    ensures
        r.data@ == data@,
{
    SuccessOne { data }
}

/// The error envelope: `{ error: { code, message } }`.
pub fn error_body(err: &AppError, message: String) -> (r: JsonValue)
    ensures
        r@ == Json::Obj(
            seq![
                (
                    "error"@,
                    Json::Obj(
                        seq![
                            ("code"@, Json::Str(err.spec_code())),
                            ("message"@, Json::Str(message@)),
                        ],
                    ),
                ),
            ],
        ),
{
    let ghost msg = message@;
    let code = err.code();
    let mut inner: Vec<(String, JsonValue)> = Vec::new();
    inner.push(("code".to_owned(), JsonValue::Str(code.to_owned())));
    inner.push(("message".to_owned(), JsonValue::Str(message)));
    let ghost inner_view = inner@;
    let mut outer: Vec<(String, JsonValue)> = Vec::new();
    outer.push(("error".to_owned(), JsonValue::Obj(inner)));
    let r = JsonValue::Obj(outer);
    proof {
        crate::json::lemma_view_json_pairs(inner_view);
        crate::json::lemma_view_json_pairs(outer@);
        assert(view_json_pairs(inner_view) =~= seq![
            ("code"@, Json::Str(err.spec_code())),
            ("message"@, Json::Str(msg)),
        ]);
        assert(view_json_pairs(outer@) =~= seq![
            ("error"@, Json::Obj(view_json_pairs(inner_view))),
        ]);
    }
    r
}

} // verus!
