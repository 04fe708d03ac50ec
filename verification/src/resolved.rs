//! The resolved model: configuration validated and flattened into the
//! runtime objects that handlers use, together with its mathematical model.

use vstd::prelude::*;

use crate::config::ValidationRule;
use crate::json::Json;
use crate::json::view_json_seq;
use crate::strutil::str_eq;

verus! {

/// Direction of a related-entity attachment: to-one when this table holds
/// the foreign key, to-many when the other side holds it.
#[derive(Clone, Copy, PartialEq, Eq, Structural)]
pub enum IncludeDirection {
    ToOne,
    ToMany,
}

/// Primary-key kind, inferred from the declared type of the key column.
#[derive(Clone, Copy, PartialEq, Eq, Structural)]
pub enum PkType {
    Uuid,
    BigInt,
    Int,
    Text,
}

/// One related-entity attachment available to an entity. Its name is the
/// related entity's path segment.
pub struct IncludeSpec {
    pub name: String,
    pub direction: IncludeDirection,
    /// Path segment of the related entity, for lookup in the model.
    pub related_path_segment: String,
    /// Our column in the join: our foreign key for to-one, our key for to-many.
    pub our_key_column: String,
    /// Their column in the join: their key for to-one, their foreign key for to-many.
    pub their_key_column: String,
}

#[verifier::ext_equal]
pub ghost struct IncludeModel {
    pub name: Seq<char>,
    pub direction: IncludeDirection,
    pub related_path_segment: Seq<char>,
    pub our_key_column: Seq<char>,
    pub their_key_column: Seq<char>,
}

impl View for IncludeSpec {
    type V = IncludeModel;

    open spec fn view(&self) -> IncludeModel {
        IncludeModel {
            name: self.name@,
            direction: self.direction,
            related_path_segment: self.related_path_segment@,
            our_key_column: self.our_key_column@,
            their_key_column: self.their_key_column@,
        }
    }
}

impl IncludeSpec {
    /// A copy with the same model.
    pub fn duplicate(&self) -> (r: IncludeSpec)
        ensures
            r@ == self@,
    {
        IncludeSpec {
            name: self.name.clone(),
            direction: self.direction,
            related_path_segment: self.related_path_segment.clone(),
            our_key_column: self.our_key_column.clone(),
            their_key_column: self.their_key_column.clone(),
        }
    }
}

/// One column of a resolved entity.
pub struct ColumnInfo {
    pub name: String,
    /// Set when the column is part of the primary key.
    pub pk_type: Option<PkType>,
    pub nullable: bool,
    /// Whether the column has a database-side default.
    pub has_default: bool,
    /// Type name for SQL casts when binding text values.
    pub pg_type: Option<String>,
}

#[verifier::ext_equal]
pub ghost struct ColumnModel {
    pub name: Seq<char>,
    pub pk_type: Option<PkType>,
    pub nullable: bool,
    pub has_default: bool,
    pub pg_type: Option<Seq<char>>,
}

impl View for ColumnInfo {
    type V = ColumnModel;

    open spec fn view(&self) -> ColumnModel {
        ColumnModel {
            name: self.name@,
            pk_type: self.pk_type,
            nullable: self.nullable,
            has_default: self.has_default,
            pg_type: match self.pg_type {
                Some(s) => Some(s@),
                None => None,
            },
        }
    }
}

#[verifier::ext_equal]
pub ghost struct RuleModel {
    pub required: Option<bool>,
    pub format: Option<Seq<char>>,
    pub max_length: Option<u32>,
    pub min_length: Option<u32>,
    pub pattern: Option<Seq<char>>,
    pub allowed: Option<Seq<Json>>,
    pub minimum: Option<i64>,
    pub maximum: Option<i64>,
}

impl View for ValidationRule {
    type V = RuleModel;

    open spec fn view(&self) -> RuleModel {
        RuleModel {
            required: self.required,
            format: match self.format {
                Some(s) => Some(s@),
                None => None,
            },
            max_length: self.max_length,
            min_length: self.min_length,
            pattern: match self.pattern {
                Some(s) => Some(s@),
                None => None,
            },
            allowed: match self.allowed {
                Some(v) => Some(view_json_seq(v@)),
                None => None,
            },
            minimum: self.minimum,
            maximum: self.maximum,
        }
    }
}

/// The runtime object a handler uses: the table augmented with its API
/// binding, inferred key kind, audit columns and related-entity graph.
pub struct ResolvedEntity {
    pub table_id: String,
    pub schema_name: String,
    pub table_name: String,
    pub path_segment: String,
    pub pk_columns: Vec<String>,
    pub pk_type: PkType,
    pub columns: Vec<ColumnInfo>,
    pub operations: Vec<String>,
    /// Column names stripped from every API response.
    pub sensitive_columns: Vec<String>,
    /// Related-entity attachments, one per relationship direction touching
    /// this table whose related table has an API binding.
    pub includes: Vec<IncludeSpec>,
    pub validation: Vec<(String, ValidationRule)>,
}

#[verifier::ext_equal]
pub ghost struct EntityModel {
    pub table_id: Seq<char>,
    pub schema_name: Seq<char>,
    pub table_name: Seq<char>,
    pub path_segment: Seq<char>,
    pub pk_columns: Seq<Seq<char>>,
    pub pk_type: PkType,
    pub columns: Seq<ColumnModel>,
    pub operations: Seq<Seq<char>>,
    pub sensitive_columns: Seq<Seq<char>>,
    pub includes: Seq<IncludeModel>,
    pub validation: Seq<(Seq<char>, RuleModel)>,
}

/// The views of a sequence of strings.
pub open spec fn view_strs(v: Seq<String>) -> Seq<Seq<char>> {
    Seq::new(v.len(), |i: int| v[i]@)
}

impl View for ResolvedEntity {
    type V = EntityModel;

    open spec fn view(&self) -> EntityModel {
        EntityModel {
            table_id: self.table_id@,
            schema_name: self.schema_name@,
            table_name: self.table_name@,
            path_segment: self.path_segment@,
            pk_columns: view_strs(self.pk_columns@),
            pk_type: self.pk_type,
            columns: Seq::new(self.columns@.len(), |i: int| self.columns@[i]@),
            operations: view_strs(self.operations@),
            sensitive_columns: view_strs(self.sensitive_columns@),
            includes: Seq::new(self.includes@.len(), |i: int| self.includes@[i]@),
            validation: Seq::new(
                self.validation@.len(),
                |i: int| (self.validation@[i].0@, self.validation@[i].1@),
            ),
        }
    }
}

/// An ordered list of resolved entities; lookup is by path segment.
pub struct ResolvedModel {
    pub entities: Vec<ResolvedEntity>,
}

/// The views of a sequence of entities.
pub open spec fn view_entities(v: Seq<ResolvedEntity>) -> Seq<EntityModel> {
    Seq::new(v.len(), |i: int| v[i]@)
}

/// The first entity with the given path segment.
pub open spec fn spec_entity_by_path(entities: Seq<ResolvedEntity>, p: Seq<char>) -> Option<
    ResolvedEntity,
>
    decreases entities.len(),
{
    if entities.len() == 0 {
        None
    } else if entities[0].path_segment@ == p {
        Some(entities[0])
    } else {
        spec_entity_by_path(entities.drop_first(), p)
    }
}

/// Find the index of the first entity with the given path segment.
#[verifier::loop_isolation(false)]
pub fn entity_index_by_path(model: &ResolvedModel, path: &str) -> (r: Option<usize>)
    ensures
        r is Some <==> spec_entity_by_path(model.entities@, path@) is Some,
        r is Some ==> r->0 < model.entities@.len() && model.entities@[r->0 as int]
            == spec_entity_by_path(model.entities@, path@)->0,
{
    let n = model.entities.len();
    let mut i: usize = 0;
    proof {
        assert(model.entities@.skip(0) =~= model.entities@);
    }
    while i < n
        invariant
            i <= n,
            n == model.entities@.len(),
            spec_entity_by_path(model.entities@, path@) == spec_entity_by_path(
                model.entities@.skip(i as int),
                path@,
            ),
        decreases n - i,
    {
        proof {
            assert(model.entities@.skip(i as int).drop_first() =~= model.entities@.skip(
                i as int + 1,
            ));
            assert(model.entities@.skip(i as int)[0] == model.entities@[i as int]);
        }
        if str_eq(model.entities[i].path_segment.as_str(), path) {
            return Some(i);
        }
        i += 1;
    }
    proof {
        assert(model.entities@.skip(n as int) =~= Seq::<ResolvedEntity>::empty());
    }
    None
}

impl ResolvedModel {
    /// Look up an entity by its URL path segment.
    pub fn entity_by_path(&self, path: &str) -> (r: Option<&ResolvedEntity>)
        ensures
            r is Some <==> spec_entity_by_path(self.entities@, path@) is Some,
            r is Some ==> *r->0 == spec_entity_by_path(self.entities@, path@)->0,
    {
        let n = self.entities.len();
        let mut i: usize = 0;
        proof {
            assert(self.entities@.skip(0) =~= self.entities@);
        }
        while i < n
            invariant
                i <= n,
                n == self.entities@.len(),
                spec_entity_by_path(self.entities@, path@) == spec_entity_by_path(
                    self.entities@.skip(i as int),
                    path@,
                ),
                forall|j: int| 0 <= j < i ==> self.entities@[j].path_segment@ != path@,
            decreases n - i,
        {
            proof {
                assert(self.entities@.skip(i as int).drop_first() =~= self.entities@.skip(
                    i as int + 1,
                ));
                assert(self.entities@.skip(i as int)[0] == self.entities@[i as int]);
            }
            if str_eq(self.entities[i].path_segment.as_str(), path) {
                return Some(&self.entities[i]);
            }
            i += 1;
        }
        proof {
            assert(self.entities@.skip(n as int) =~= Seq::<ResolvedEntity>::empty());
        }
        None
    }
}

} // verus!
