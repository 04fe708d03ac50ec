//! Request validation against the per-column rules declared on an API
//! binding.

use vstd::prelude::*;
use vstd::string::*;

use crate::case::lower_ascii_str;
use crate::case::lower_seq;
use crate::config::ValidationRule;
use crate::error::AppError;
use crate::ids::uuid_canon_of;
use crate::ids::uuid_canonical;
use crate::json::{Json, JsonValue, view_json, view_json_seq};
use crate::resolved::RuleModel;
use crate::sqlgen::{BodyMap, spec_body_get, view_body, body_get};
use crate::strutil::{contains_char, str_eq};

verus! {

#[verifier::external_type_specification]
#[verifier::external_body]
pub struct ExRegex(regex::Regex);

/// Whether a pattern compiles as a regular expression; a function of the
/// pattern alone.
pub uninterp spec fn regex_ok(p: Seq<char>) -> bool;

/// Whether a regular expression matches somewhere in a text; a function of
/// the pattern and the text alone.
pub uninterp spec fn regex_match(p: Seq<char>, s: Seq<char>) -> bool;

/// A compiled pattern, kept with its source text so that matches are
/// stated against the pattern.
pub struct CompiledPattern {
    re: regex::Regex,
    pattern: String,
}

impl CompiledPattern {
    pub closed spec fn pat(&self) -> Seq<char> {
        self.pattern@
    }

    /// Relies on `regex::Regex::new`: whether a pattern compiles depends
    /// on the pattern text alone.
    #[verifier::external_body]
    pub fn compile(p: &str) -> (r: Option<CompiledPattern>)
        ensures
            r is Some <==> regex_ok(p@),
            r is Some ==> r->0.pat() == p@,
    {
        match regex::Regex::new(p) {
            Ok(re) => Some(CompiledPattern { re, pattern: p.to_owned() }),
            Err(_) => None,
        }
    }

    /// Relies on `regex::Regex::is_match`: the result depends on the
    /// pattern and the text alone.
    #[verifier::external_body]
    pub fn is_match(&self, s: &str) -> (r: bool)
        ensures
            r == regex_match(self.pat(), s@),
    {
        self.re.is_match(s)
    }
}

/// Whether a value passes a declared format: an email must hold `@` and at
/// least three characters, a UUID must parse; unknown formats and
/// non-string values pass.
pub open spec fn spec_format_ok(v: Json, format: Seq<char>) -> bool {
    let f = lower_seq(format);
    if f == "email"@ {
        match v {
            Json::Str(s) => s.contains('@') && s.len() >= 3,
            _ => true,
        }
    } else if f == "uuid"@ {
        match v {
            Json::Str(s) => uuid_canon_of(s) is Some,
            _ => true,
        }
    } else {
        true
    }
}

/// Whether a value is among the allowed constants.
pub open spec fn spec_allowed(v: Json, allowed: Seq<Json>) -> bool {
    exists|i: int| 0 <= i < allowed.len() && allowed[i] == v
}

/// Whether a non-null value passes every clause of a rule. A declared
/// pattern must itself compile; length rules apply to strings, numeric
/// bounds to integers.
pub open spec fn spec_field_ok(v: Json, rule: RuleModel) -> bool {
    &&& (match rule.format {
        Some(f) => spec_format_ok(v, f),
        None => true,
    })
    &&& (match rule.max_length {
        Some(max) => match v {
            Json::Str(s) => s.len() <= max,
            _ => true,
        },
        None => true,
    })
    &&& (match rule.min_length {
        Some(min) => match v {
            Json::Str(s) => s.len() >= min,
            _ => true,
        },
        None => true,
    })
    &&& (match rule.pattern {
        Some(p) => regex_ok(p) && (match v {
            Json::Str(s) => regex_match(p, s),
            _ => true,
        }),
        None => true,
    })
    &&& (match rule.allowed {
        Some(vals) => spec_allowed(v, vals),
        None => true,
    })
    &&& (match rule.minimum {
        Some(min) => match v {
            Json::Int(n) => n >= min,
            _ => true,
        },
        None => true,
    })
    &&& (match rule.maximum {
        Some(max) => match v {
            Json::Int(n) => n <= max,
            _ => true,
        },
        None => true,
    })
}

/// A null value passes every rule; the required clause is checked by the
/// caller against presence.
pub open spec fn spec_value_ok(v: Json, rule: RuleModel) -> bool {
    v is Null || spec_field_ok(v, rule)
}

/// Validate one present value against a rule.
fn validate_field(col: &str, v: &JsonValue, rule: &ValidationRule) -> (r: Result<(), AppError>)
    ensures
        r is Ok <==> spec_value_ok(v@, rule@),
        r is Err ==> r->Err_0 is Validation,
{
    let is_null = match v {
        JsonValue::Null => true,
        _ => false,
    };
    proof {
        crate::json::lemma_view_ctors(*v);
    }
    if is_null {
        return Ok(());
    }
    match &rule.format {
        Some(format) => {
            let f = lower_ascii_str(format.as_str());
            if str_eq(f.as_str(), "email") {
                match v {
                    JsonValue::Str(s) => {
                        if !contains_char(s.as_str(), '@') || s.as_str().unicode_len() < 3 {
                            let mut m = col.to_owned();
                            m.append(" must be a valid email");
                            return Err(AppError::Validation(m));
                        }
                    },
                    _ => (),
                }
            } else if str_eq(f.as_str(), "uuid") {
                match v {
                    JsonValue::Str(s) => {
                        if uuid_canonical(s.as_str()).is_none() {
                            let mut m = col.to_owned();
                            m.append(" must be a valid UUID");
                            return Err(AppError::Validation(m));
                        }
                    },
                    _ => (),
                }
            }
        },
        None => (),
    }
    match rule.max_length {
        Some(max) => {
            match v {
                JsonValue::Str(s) => {
                    if s.as_str().unicode_len() > max as usize {
                        let mut m = col.to_owned();
                        m.append(" is longer than the declared maximum length");
                        return Err(AppError::Validation(m));
                    }
                },
                _ => (),
            }
        },
        None => (),
    }
    match rule.min_length {
        Some(min) => {
            match v {
                JsonValue::Str(s) => {
                    if s.as_str().unicode_len() < min as usize {
                        let mut m = col.to_owned();
                        m.append(" is shorter than the declared minimum length");
                        return Err(AppError::Validation(m));
                    }
                },
                _ => (),
            }
        },
        None => (),
    }
    match &rule.pattern {
        Some(pattern) => {
            match CompiledPattern::compile(pattern.as_str()) {
                Some(re) => {
                    match v {
                        JsonValue::Str(s) => {
                            if !re.is_match(s.as_str()) {
                                let mut m = col.to_owned();
                                m.append(" does not match required pattern");
                                return Err(AppError::Validation(m));
                            }
                        },
                        _ => (),
                    }
                },
                None => {
                    let mut m = "invalid pattern for ".to_owned();
                    m.append(col);
                    return Err(AppError::Validation(m));
                },
            }
        },
        None => (),
    }
    match &rule.allowed {
        Some(vals) => {
            proof {
                crate::json::lemma_view_json_seq(vals@);
            }
            let n = vals.len();
            let mut found = false;
            let mut i: usize = 0;
            #[verifier::loop_isolation(false)]
            while i < n && !found
                invariant
                    i <= n,
                    n == vals@.len(),
                    found ==> spec_allowed(v@, view_json_seq(vals@)),
                    !found ==> forall|j: int| 0 <= j < i ==> view_json(#[trigger] vals@[j]) != v@,
                decreases n - i + (if found {
                    0int
                } else {
                    1int
                }),
            {
                if vals[i].deep_eq(v) {
                    proof {
                        assert(view_json_seq(vals@)[i as int] == v@);
                    }
                    found = true;
                } else {
                    i += 1;
                }
            }
            if !found {
                proof {
                    if spec_allowed(v@, view_json_seq(vals@)) {
                        let j = choose|j: int|
                            0 <= j < view_json_seq(vals@).len() && view_json_seq(vals@)[j] == v@;
                        assert(view_json(vals@[j]) != v@);
                    }
                }
                let mut m = col.to_owned();
                m.append(" must be one of the allowed values");
                return Err(AppError::Validation(m));
            }
        },
        None => (),
    }
    match rule.minimum {
        Some(min) => {
            match v {
                JsonValue::Int(n) => {
                    if *n < min {
                        let mut m = col.to_owned();
                        m.append(" is below the declared minimum");
                        return Err(AppError::Validation(m));
                    }
                },
                _ => (),
            }
        },
        None => (),
    }
    match rule.maximum {
        Some(max) => {
            match v {
                JsonValue::Int(n) => {
                    if *n > max {
                        let mut m = col.to_owned();
                        m.append(" is above the declared maximum");
                        return Err(AppError::Validation(m));
                    }
                },
                _ => (),
            }
        },
        None => (),
    }
    Ok(())
}

/// Whether a body passes a rule set: every required column is present and
/// non-null, and every present value passes its column's rule.
pub open spec fn spec_body_valid(
    body: Seq<(Seq<char>, Json)>,
    rules: Seq<(Seq<char>, RuleModel)>,
) -> bool {
    forall|i: int|
        0 <= i < rules.len() ==> {
            let rule = (#[trigger] rules[i]).1;
            let val = spec_body_get(body, rules[i].0);
            &&& (rule.required == Some(true) ==> val is Some && !(val->0 is Null))
            &&& (val is Some ==> spec_value_ok(val->0, rule))
        }
}

/// Whether the present keys of a body pass their rules; absence is not
/// checked (partial updates).
pub open spec fn spec_body_valid_partial(
    body: Seq<(Seq<char>, Json)>,
    rules: Seq<(Seq<char>, RuleModel)>,
) -> bool {
    forall|i: int|
        0 <= i < body.len() ==> {
            let kv = #[trigger] body[i];
            match spec_rule_for(rules, kv.0) {
                Some(rule) => spec_value_ok(kv.1, rule),
                None => true,
            }
        }
}

/// The rule declared for a column, if any.
pub open spec fn spec_rule_for(rules: Seq<(Seq<char>, RuleModel)>, col: Seq<char>) -> Option<
    RuleModel,
>
    decreases rules.len(),
{
    if rules.len() == 0 {
        None
    } else if rules[0].0 == col {
        Some(rules[0].1)
    } else {
        spec_rule_for(rules.drop_first(), col)
    }
}

pub struct RequestValidator;

impl RequestValidator {
    /// Validate a body against the rules: required columns must be
    /// present and non-null, and every present value must pass its rule.
    #[verifier::loop_isolation(false)]
    pub fn validate(body: &BodyMap, rules: &Vec<(String, ValidationRule)>) -> (r: Result<
        (),
        AppError,
    >)
        ensures
            r is Ok <==> spec_body_valid(view_body(body@), view_rules(rules@)),
            r is Err ==> r->Err_0 is Validation,
    {
        proof {
            crate::json::lemma_view_json_pairs(body@);
        }
        let n = rules.len();
        let mut i: usize = 0;
        while i < n
            invariant
                i <= n,
                n == rules@.len(),
                forall|j: int|
                    0 <= j < i ==> {
                        let rule = (#[trigger] view_rules(rules@)[j]).1;
                        let val = spec_body_get(view_body(body@), view_rules(rules@)[j].0);
                        &&& (rule.required == Some(true) ==> val is Some && !(val->0 is Null))
                        &&& (val is Some ==> spec_value_ok(val->0, rule))
                    },
            decreases n - i,
        {
            let col = rules[i].0.as_str();
            let rule = &rules[i].1;
            let val = body_get(body, col);
            let required = match rule.required {
                Some(true) => true,
                _ => false,
            };
            if required {
                let missing = match val {
                    Some(v) => match v {
                        JsonValue::Null => true,
                        _ => false,
                    },
                    None => true,
                };
                if missing {
                    proof {
                        match val {
                            Some(v) => {
                                crate::json::lemma_view_ctors(*v);
                            },
                            None => {
                            },
                        }
                        assert(view_rules(rules@)[i as int] == (
                            rules@[i as int].0@,
                            rules@[i as int].1@,
                        ));
                        assert(!spec_body_valid(view_body(body@), view_rules(rules@)));
                    }
                    let mut m = col.to_owned();
                    m.append(" is required");
                    return Err(AppError::Validation(m));
                }
            }
            match val {
                Some(v) => {
                    match validate_field(col, v, rule) {
                        Ok(()) => (),
                        Err(e) => {
                            proof {
                                assert(view_rules(rules@)[i as int] == (
                                    rules@[i as int].0@,
                                    rules@[i as int].1@,
                                ));
                                assert(!spec_body_valid(view_body(body@), view_rules(rules@)));
                            }
                            return Err(e);
                        },
                    }
                },
                None => (),
            }
            i += 1;
        }
        Ok(())
    }

    /// Validate only the keys present in the body, for partial updates.
    #[verifier::loop_isolation(false)]
    pub fn validate_partial(body: &BodyMap, rules: &Vec<(String, ValidationRule)>) -> (r: Result<
        (),
        AppError,
    >)
        ensures
            r is Ok <==> spec_body_valid_partial(view_body(body@), view_rules(rules@)),
            r is Err ==> r->Err_0 is Validation,
    {
        proof {
            crate::json::lemma_view_json_pairs(body@);
        }
        let n = body.len();
        let mut i: usize = 0;
        while i < n
            invariant
                i <= n,
                n == body@.len(),
                forall|j: int|
                    0 <= j < i ==> {
                        let kv = #[trigger] view_body(body@)[j];
                        match spec_rule_for(view_rules(rules@), kv.0) {
                            Some(rule) => spec_value_ok(kv.1, rule),
                            None => true,
                        }
                    },
            decreases n - i,
        {
            match rule_for(rules, body[i].0.as_str()) {
                Some(rule) => {
                    match validate_field(body[i].0.as_str(), &body[i].1, rule) {
                        Ok(()) => (),
                        Err(e) => {
                            proof {
                                assert(view_body(body@)[i as int] == (
                                    body@[i as int].0@,
                                    view_json(body@[i as int].1),
                                ));
                                assert(!spec_body_valid_partial(
                                    view_body(body@),
                                    view_rules(rules@),
                                ));
                            }
                            return Err(e);
                        },
                    }
                },
                None => (),
            }
            i += 1;
        }
        Ok(())
    }
}

/// The views of a rule list.
pub open spec fn view_rules(rules: Seq<(String, ValidationRule)>) -> Seq<(Seq<char>, RuleModel)> {
    Seq::new(rules.len(), |i: int| (rules[i].0@, rules[i].1@))
}

/// Find the rule declared for a column.
#[verifier::loop_isolation(false)]
fn rule_for<'a>(rules: &'a Vec<(String, ValidationRule)>, col: &str) -> (r: Option<
    &'a ValidationRule,
>)
    ensures
        r is Some <==> spec_rule_for(view_rules(rules@), col@) is Some,
        r is Some ==> r->0@ == spec_rule_for(view_rules(rules@), col@)->0,
{
    proof {
        assert(view_rules(rules@).skip(0) =~= view_rules(rules@));
    }
    let n = rules.len();
    let mut i: usize = 0;
    while i < n
        invariant
            i <= n,
            n == rules@.len(),
            spec_rule_for(view_rules(rules@), col@) == spec_rule_for(
                view_rules(rules@).skip(i as int),
                col@,
            ),
        decreases n - i,
    {
        proof {
            assert(view_rules(rules@).skip(i as int).drop_first() =~= view_rules(rules@).skip(
                i as int + 1,
            ));
            assert(view_rules(rules@).skip(i as int)[0] == view_rules(rules@)[i as int]);
        }
        if str_eq(rules[i].0.as_str(), col) {
            return Some(&rules[i].1);
        }
        i += 1;
    }
    proof {
        assert(view_rules(rules@).skip(n as int) =~= Seq::<(Seq<char>, RuleModel)>::empty());
    }
    None
}

} // verus!
