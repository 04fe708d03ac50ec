//! Typed bind conversion: how a JSON value binds to a statement
//! parameter. The driver-side encoding runs outside; which typed form a
//! value takes is decided here.

use vstd::prelude::*;

use crate::ids::{uuid_canon_of, uuid_canonical};
use crate::json::{Json, JsonValue, view_json};

verus! {

/// A value as bound to a statement parameter.
pub enum PgBindValue {
    Null,
    Bool(bool),
    I64(i64),
    /// A non-integral numeric, bound in its textual form.
    Numeric(String),
    Text(String),
    /// A string recognized as a UUID, bound in canonical form.
    Uuid(String),
    /// An array or object, bound as JSON.
    Json(JsonValue),
}

/// The typed form a JSON value binds as: null, boolean and integer as
/// themselves, a textual numeric as text, a string as a UUID when it
/// parses as one and as text otherwise, arrays and objects as JSON.
pub open spec fn spec_bind_of(v: Json) -> PgBindValueModel {
    match v {
        Json::Null => PgBindValueModel::Null,
        Json::Bool(b) => PgBindValueModel::Bool(b),
        Json::Int(n) => PgBindValueModel::I64(n),
        Json::Num(s) => PgBindValueModel::Numeric(s),
        Json::Str(s) => match uuid_canon_of(s) {
            Some(c) => PgBindValueModel::Uuid(c),
            None => PgBindValueModel::Text(s),
        },
        Json::Arr(_) => PgBindValueModel::Json(v),
        Json::Obj(_) => PgBindValueModel::Json(v),
    }
}

#[verifier::ext_equal]
pub ghost enum PgBindValueModel {
    Null,
    Bool(bool),
    I64(int),
    Numeric(Seq<char>),
    Text(Seq<char>),
    Uuid(Seq<char>),
    Json(Json),
}

impl View for PgBindValue {
    type V = PgBindValueModel;

    open spec fn view(&self) -> PgBindValueModel {
        match self {
            PgBindValue::Null => PgBindValueModel::Null,
            PgBindValue::Bool(b) => PgBindValueModel::Bool(*b),
            PgBindValue::I64(n) => PgBindValueModel::I64(*n as int),
            PgBindValue::Numeric(s) => PgBindValueModel::Numeric(s@),
            PgBindValue::Text(s) => PgBindValueModel::Text(s@),
            PgBindValue::Uuid(s) => PgBindValueModel::Uuid(s@),
            PgBindValue::Json(v) => PgBindValueModel::Json(view_json(*v)),
        }
    }
}

impl PgBindValue {
    /// Decide the typed form of a parameter value.
    pub fn from_json(v: &JsonValue) -> (r: PgBindValue)
        ensures
            r@ == spec_bind_of(v@),
    {
        match v {
            JsonValue::Null => PgBindValue::Null,
            JsonValue::Bool(b) => PgBindValue::Bool(*b),
            JsonValue::Int(n) => PgBindValue::I64(*n),
            JsonValue::Num(s) => PgBindValue::Numeric(s.clone()),
            JsonValue::Str(s) => {
                match uuid_canonical(s.as_str()) {
                    Some(c) => PgBindValue::Uuid(c),
                    None => PgBindValue::Text(s.clone()),
                }
            },
            JsonValue::Arr(_) => PgBindValue::Json(v.deep_copy()),
            JsonValue::Obj(_) => PgBindValue::Json(v.deep_copy()),
        }
    }
}

} // verus!
