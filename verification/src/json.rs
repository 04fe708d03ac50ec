//! Dynamic JSON values.
//!
//! The API is generic over user-defined schemas, so request bodies,
//! configuration payloads and result rows all flow through one dynamic value
//! type. `JsonValue` is the executable carrier; its mathematical model is the
//! spec-level `Json` tree, and contracts over payloads speak of that model.
//! Numbers are either 64-bit integers or a textual numeric form (the driver
//! binds and projects non-integral numerics as text).

use vstd::prelude::*;

verus! {

/// Mathematical model of a JSON document. Objects are ordered key/value
/// sequences; insertion order is part of the model.
#[verifier::ext_equal]
pub ghost enum Json {
    Null,
    Bool(bool),
    Int(int),
    Num(Seq<char>),
    Str(Seq<char>),
    Arr(Seq<Json>),
    Obj(Seq<(Seq<char>, Json)>),
}

/// A JSON value as carried through the core.
pub enum JsonValue {
    Null,
    Bool(bool),
    Int(i64),
    /// Non-integral numeric, kept in its textual form.
    Num(String),
    Str(String),
    Arr(Vec<JsonValue>),
    Obj(Vec<(String, JsonValue)>),
}

/// The model of an executable JSON value.
pub open spec fn view_json(v: JsonValue) -> Json
    decreases v, 0int,
    via view_json_decreases
{
    match v {
        JsonValue::Null => Json::Null,
        JsonValue::Bool(b) => Json::Bool(b),
        JsonValue::Int(n) => Json::Int(n as int),
        JsonValue::Num(s) => Json::Num(s@),
        JsonValue::Str(s) => Json::Str(s@),
        JsonValue::Arr(items) => Json::Arr(view_json_seq(items@)),
        JsonValue::Obj(pairs) => Json::Obj(view_json_pairs(pairs@)),
    }
}

/// The models of a sequence of values, element by element.
pub open spec fn view_json_seq(s: Seq<JsonValue>) -> Seq<Json>
    decreases s, 1int,
    via view_json_seq_decreases
{
    if s.len() == 0 {
        Seq::empty()
    } else {
        seq![view_json(s[0])] + view_json_seq(s.drop_first())
    }
}

/// The models of a sequence of key/value pairs, pair by pair.
pub open spec fn view_json_pairs(s: Seq<(String, JsonValue)>) -> Seq<(Seq<char>, Json)>
    decreases s, 1int,
    via view_json_pairs_decreases
{
    if s.len() == 0 {
        Seq::empty()
    } else {
        seq![(s[0].0@, view_json(s[0].1))] + view_json_pairs(s.drop_first())
    }
}

#[via_fn]
proof fn view_json_decreases(v: JsonValue) {
    match v {
        JsonValue::Arr(items) => {
            assert(decreases_to!(v => v->Arr_0));
            assert(decreases_to!(v->Arr_0 => v->Arr_0@));
        },
        JsonValue::Obj(pairs) => {
            assert(decreases_to!(v => v->Obj_0));
            assert(decreases_to!(v->Obj_0 => v->Obj_0@));
        },
        _ => {
        },
    }
}

#[via_fn]
proof fn view_json_seq_decreases(s: Seq<JsonValue>) {
    if s.len() > 0 {
        assert(decreases_to!(s => s[0]));
        assert(s.drop_first() == s.subrange(1, s.len() as int));
        assert(decreases_to!(s => s.subrange(1, s.len() as int)));
    }
}

#[via_fn]
proof fn view_json_pairs_decreases(s: Seq<(String, JsonValue)>) {
    if s.len() > 0 {
        assert(decreases_to!(s => s[0]));
        assert(decreases_to!(s[0] => s[0].1));
        assert(s.drop_first() == s.subrange(1, s.len() as int));
        assert(decreases_to!(s => s.subrange(1, s.len() as int)));
    }
}

/// `view_json_seq` maps the view over the sequence pointwise.
pub proof fn lemma_view_json_seq(s: Seq<JsonValue>)
    ensures
        view_json_seq(s).len() == s.len(),
        forall|i: int| 0 <= i < s.len() ==> view_json_seq(s)[i] == view_json(s[i]),
    decreases s.len(),
{
    if s.len() > 0 {
        lemma_view_json_seq(s.drop_first());
    }
}

/// `view_json_pairs` maps the view over the pairs pointwise.
pub proof fn lemma_view_json_pairs(s: Seq<(String, JsonValue)>)
    ensures
        view_json_pairs(s).len() == s.len(),
        forall|i: int| 0 <= i < s.len() ==> view_json_pairs(s)[i] == (s[i].0@, view_json(s[i].1)),
    decreases s.len(),
{
    if s.len() > 0 {
        lemma_view_json_pairs(s.drop_first());
    }
}

impl View for JsonValue {
    type V = Json;

    open spec fn view(&self) -> Json {
        view_json(*self)
    }
}

/// Whether an object model has a pair with the given key.
pub open spec fn obj_has_key(pairs: Seq<(Seq<char>, Json)>, k: Seq<char>) -> bool {
    exists|i: int| 0 <= i < pairs.len() && pairs[i].0 == k
}

/// The value of the first pair with the given key, when one exists.
pub open spec fn obj_value_of_opt(pairs: Seq<(Seq<char>, Json)>, k: Seq<char>) -> Option<Json>
    decreases pairs.len(),
{
    if pairs.len() == 0 {
        None
    } else if pairs[0].0 == k {
        Some(pairs[0].1)
    } else {
        obj_value_of_opt(pairs.drop_first(), k)
    }
}

/// The constructor of a value is visible in its model.
proof fn lemma_view_ctor(a: JsonValue, b: JsonValue)
    requires
        view_json(a) == view_json(b),
    ensures
        a is Null <==> b is Null,
        a is Bool <==> b is Bool,
        a is Int <==> b is Int,
        a is Num <==> b is Num,
        a is Str <==> b is Str,
        a is Arr <==> b is Arr,
        a is Obj <==> b is Obj,
{
}

/// A value's constructor is visible in its model.
pub proof fn lemma_view_ctors(v: JsonValue)
    ensures
        (view_json(v) is Null) <==> (v is Null),
        (view_json(v) is Bool) <==> (v is Bool),
        (view_json(v) is Int) <==> (v is Int),
        (view_json(v) is Num) <==> (v is Num),
        (view_json(v) is Str) <==> (v is Str),
        (view_json(v) is Arr) <==> (v is Arr),
        (view_json(v) is Obj) <==> (v is Obj),
{
    match v {
        JsonValue::Null => {
        },
        JsonValue::Bool(_) => {
        },
        JsonValue::Int(_) => {
        },
        JsonValue::Num(_) => {
        },
        JsonValue::Str(_) => {
        },
        JsonValue::Arr(_) => {
        },
        JsonValue::Obj(_) => {
        },
    }
}

/// A value models a string exactly when it is one.
pub proof fn lemma_view_ctor_str(v: JsonValue)
    ensures
        (view_json(v) is Str) <==> (v is Str),
{
    match v {
        JsonValue::Null => {
        },
        JsonValue::Bool(_) => {
        },
        JsonValue::Int(_) => {
        },
        JsonValue::Num(_) => {
        },
        JsonValue::Str(_) => {
        },
        JsonValue::Arr(_) => {
        },
        JsonValue::Obj(_) => {
        },
    }
}

impl JsonValue {
    /// Structural equality of two JSON values, decided at the model level.
    #[verifier::loop_isolation(false)]
    pub fn deep_eq(&self, other: &JsonValue) -> (r: bool)
        ensures
            r == (self@ == other@),
        decreases *self,
    {
        match (self, other) {
            (JsonValue::Null, JsonValue::Null) => true,
            (JsonValue::Bool(x), JsonValue::Bool(y)) => *x == *y,
            (JsonValue::Int(x), JsonValue::Int(y)) => *x == *y,
            (JsonValue::Num(x), JsonValue::Num(y)) => *x == *y,
            (JsonValue::Str(x), JsonValue::Str(y)) => *x == *y,
            (JsonValue::Arr(x), JsonValue::Arr(y)) => {
                proof {
                    lemma_view_json_seq(x@);
                    lemma_view_json_seq(y@);
                }
                if x.len() != y.len() {
                    return false;
                }
                let n = x.len();
                let mut i: usize = 0;
                while i < n
                    invariant
                        i <= n,
                        forall|j: int| 0 <= j < i ==> view_json(x@[j]) == view_json(y@[j]),
                    decreases n - i,
                {
                    proof {
                        assert(decreases_to!(*self => (*self)->Arr_0));
                        assert(decreases_to!((*self)->Arr_0 => (*self)->Arr_0@));
                        assert(decreases_to!((*self)->Arr_0@ => (*self)->Arr_0@[i as int]));
                        assert(x@ == (*self)->Arr_0@);
                    }
                    if !x[i].deep_eq(&y[i]) {
                        proof {
                            assert(view_json_seq(x@)[i as int] == view_json(x@[i as int]));
                            assert(view_json_seq(y@)[i as int] == view_json(y@[i as int]));
                        }
                        return false;
                    }
                    i += 1;
                }
                proof {
                    assert(view_json_seq(x@) =~= view_json_seq(y@));
                }
                true
            },
            (JsonValue::Obj(x), JsonValue::Obj(y)) => {
                proof {
                    lemma_view_json_pairs(x@);
                    lemma_view_json_pairs(y@);
                }
                if x.len() != y.len() {
                    return false;
                }
                let n = x.len();
                let mut i: usize = 0;
                while i < n
                    invariant
                        i <= n,
                        forall|j: int| 0 <= j < i ==> x@[j].0@ == y@[j].0@ && view_json(x@[j].1)
                            == view_json(y@[j].1),
                    decreases n - i,
                {
                    proof {
                        assert(decreases_to!(*self => (*self)->Obj_0));
                        assert(decreases_to!((*self)->Obj_0 => (*self)->Obj_0@));
                        assert(decreases_to!((*self)->Obj_0@ => (*self)->Obj_0@[i as int]));
                        assert(decreases_to!((*self)->Obj_0@[i as int] => (*self)->Obj_0@[i as int].1));
                        assert(x@ == (*self)->Obj_0@);
                    }
                    if !(x[i].0 == y[i].0) {
                        proof {
                            assert(view_json_pairs(x@)[i as int] == (x@[i as int].0@, view_json(x@[i as int].1)));
                            assert(view_json_pairs(y@)[i as int] == (y@[i as int].0@, view_json(y@[i as int].1)));
                        }
                        return false;
                    }
                    if !x[i].1.deep_eq(&y[i].1) {
                        proof {
                            assert(view_json_pairs(x@)[i as int] == (x@[i as int].0@, view_json(x@[i as int].1)));
                            assert(view_json_pairs(y@)[i as int] == (y@[i as int].0@, view_json(y@[i as int].1)));
                        }
                        return false;
                    }
                    i += 1;
                }
                proof {
                    assert(view_json_pairs(x@) =~= view_json_pairs(y@));
                }
                true
            },
            _ => {
                proof {
                    if view_json(*self) == view_json(*other) {
                        lemma_view_ctor(*self, *other);
                    }
                }
                false
            },
        }
    }

    /// A structural copy whose model equals this value's model.
    #[verifier::loop_isolation(false)]
    pub fn deep_copy(&self) -> (r: JsonValue)
        ensures
            r@ == self@,
        decreases *self,
    {
        match self {
            JsonValue::Null => JsonValue::Null,
            JsonValue::Bool(b) => JsonValue::Bool(*b),
            JsonValue::Int(n) => JsonValue::Int(*n),
            JsonValue::Num(s) => JsonValue::Num(s.clone()),
            JsonValue::Str(s) => JsonValue::Str(s.clone()),
            JsonValue::Arr(items) => {
                let n = items.len();
                let mut out: Vec<JsonValue> = Vec::new();
                let mut i: usize = 0;
                while i < n
                    invariant
                        i <= n,
                        out@.len() == i,
                        forall|j: int| 0 <= j < i ==> view_json(out@[j]) == view_json(items@[j]),
                    decreases n - i,
                {
                    proof {
                        assert(decreases_to!(*self => (*self)->Arr_0));
                        assert(decreases_to!((*self)->Arr_0 => (*self)->Arr_0@));
                        assert(decreases_to!((*self)->Arr_0@ => (*self)->Arr_0@[i as int]));
                        assert(items@ == (*self)->Arr_0@);
                    }
                    out.push(items[i].deep_copy());
                    i += 1;
                }
                proof {
                    lemma_view_json_seq(out@);
                    lemma_view_json_seq(items@);
                    assert(view_json_seq(out@) =~= view_json_seq(items@));
                }
                JsonValue::Arr(out)
            },
            JsonValue::Obj(pairs) => {
                let n = pairs.len();
                let mut out: Vec<(String, JsonValue)> = Vec::new();
                let mut i: usize = 0;
                while i < n
                    invariant
                        i <= n,
                        out@.len() == i,
                        forall|j: int| 0 <= j < i ==> out@[j].0@ == pairs@[j].0@ && view_json(
                            out@[j].1,
                        ) == view_json(pairs@[j].1),
                    decreases n - i,
                {
                    proof {
                        assert(decreases_to!(*self => (*self)->Obj_0));
                        assert(decreases_to!((*self)->Obj_0 => (*self)->Obj_0@));
                        assert(decreases_to!((*self)->Obj_0@ => (*self)->Obj_0@[i as int]));
                        assert(decreases_to!((*self)->Obj_0@[i as int] => (*self)->Obj_0@[i as int].1));
                        assert(pairs@ == (*self)->Obj_0@);
                    }
                    let k = pairs[i].0.clone();
                    let v = pairs[i].1.deep_copy();
                    out.push((k, v));
                    i += 1;
                }
                proof {
                    lemma_view_json_pairs(out@);
                    lemma_view_json_pairs(pairs@);
                    assert(view_json_pairs(out@) =~= view_json_pairs(pairs@));
                }
                JsonValue::Obj(out)
            },
        }
    }
}

} // verus!
