//! Additive DDL rendering from a validated configuration.
//!
//! The engine renders statements in the order PostgreSQL dependencies
//! require: schemas, then enums, tables, indexes, and foreign keys. Every
//! statement is idempotent by form (`IF NOT EXISTS`) or marked so that a
//! failure is tolerated (the object already exists); rendering is a pure
//! function of the configuration, so rerunning it on an unchanged
//! configuration yields the same statements.

use vstd::prelude::*;
use vstd::string::*;

use crate::case::{upper_ascii_str, upper_seq};
use crate::config::{
    ColumnConfig,
    ColumnDefaultConfig,
    ColumnTypeConfig,
    EnumConfig,
    FullConfig,
    IndexColumnEntry,
    IndexConfig,
    RelationshipConfig,
    SchemaConfig,
    TableConfig,
    spec_pk_names,
};
use crate::error::ConfigError;
use crate::resolver::{
    lemma_find_col_name_some,
    lemma_find_schema_some,
    lemma_find_table_some,
    spec_find_col_name,
    spec_find_schema,
    spec_find_table,
};
use crate::sqlgen::{spec_dec, spec_join, spec_quoted, quoted, u64_dec};
use crate::strutil::{chars_to_string, spec_starts_with, str_chars, str_eq};
use crate::validator::{
    config_valid,
    default_schema_id,
    effective_schema_id,
    error_witnessed,
    has_schema_id,
    has_table_id,
    record_schema_id,
    spec_default_schema_id,
    table_has_column_named,
    validate,
};

verus! {

/// What a rendered statement creates.
#[derive(Clone, Copy, PartialEq, Eq, Structural)]
pub enum DdlKind {
    CreateSchema,
    CreateEnum,
    CreateTable,
    CreateIndex,
    AddForeignKey,
}

/// One DDL statement. When `tolerate_failure` is set the statement may
/// fail because the object already exists, and the failure is ignored.
pub struct DdlStatement {
    pub sql: String,
    pub kind: DdlKind,
    pub tolerate_failure: bool,
}

#[verifier::ext_equal]
pub ghost struct DdlModel {
    pub sql: Seq<char>,
    pub kind: DdlKind,
    pub tolerate_failure: bool,
}

impl View for DdlStatement {
    type V = DdlModel;

    open spec fn view(&self) -> DdlModel {
        DdlModel { sql: self.sql@, kind: self.kind, tolerate_failure: self.tolerate_failure }
    }
}

/// The views of a statement vector.
pub open spec fn view_stmts(v: Seq<DdlStatement>) -> Seq<DdlModel> {
    Seq::new(v.len(), |i: int| v[i]@)
}

/// A string literal with internal single quotes doubled.
pub open spec fn spec_escape_literal(s: Seq<char>) -> Seq<char>
    decreases s.len(),
{
    if s.len() == 0 {
        Seq::empty()
    } else {
        (if s[0] == '\'' {
            seq!['\'', '\'']
        } else {
            seq![s[0]]
        }) + spec_escape_literal(s.drop_first())
    }
}

/// A quoted string literal.
pub open spec fn spec_str_literal(s: Seq<char>) -> Seq<char> {
    seq!['\''] + spec_escape_literal(s) + seq!['\'']
}

pub open spec fn spec_create_schema_sql(name: Seq<char>) -> Seq<char> {
    "CREATE SCHEMA IF NOT EXISTS "@ + spec_quoted(name)
}

/// The declared type as rendered in DDL: the bare name, or the name with
/// its parameter list.
pub open spec fn spec_ddl_type(t: ColumnTypeConfig) -> Seq<char> {
    match t {
        ColumnTypeConfig::Simple(s) => s@,
        ColumnTypeConfig::Parameterized { name, params } => match params {
            Some(ps) => if ps@.len() > 0 {
                name@ + "("@ + spec_join(Seq::new(ps@.len(), |i: int| spec_dec(ps@[i] as int)), ", "@)
                    + ")"@
            } else {
                name@
            },
            None => name@,
        },
    }
}

/// One column definition: name, type, nullability, and the default emitted
/// verbatim from configuration.
pub open spec fn spec_column_def(col: ColumnConfig) -> Seq<char> {
    spec_quoted(col.name@) + " "@ + spec_ddl_type(col.type_) + (if !col.nullable {
        " NOT NULL"@
    } else {
        Seq::<char>::empty()
    }) + (match col.default {
        Some(ColumnDefaultConfig::Literal(s)) => " DEFAULT "@ + s@,
        Some(ColumnDefaultConfig::Expression { expression }) => " DEFAULT "@ + expression@,
        None => Seq::<char>::empty(),
    })
}

/// The definitions of a table's configured columns, in declaration order.
pub open spec fn spec_col_defs(cs: Seq<ColumnConfig>, tid: Seq<char>) -> Seq<Seq<char>>
    decreases cs.len(),
{
    if cs.len() == 0 {
        Seq::empty()
    } else {
        let rest = spec_col_defs(cs.drop_first(), tid);
        if cs[0].table_id@ == tid {
            seq![spec_column_def(cs[0])] + rest
        } else {
            rest
        }
    }
}

/// The audit-timestamp definitions injected for column names the table
/// does not declare.
pub open spec fn spec_audit_defs(c: FullConfig, tid: Seq<char>) -> Seq<Seq<char>> {
    let d1: Seq<Seq<char>> = if table_has_column_named(c, tid, "created_at"@) {
        Seq::empty()
    } else {
        seq![spec_quoted("created_at"@) + " TIMESTAMPTZ NOT NULL DEFAULT NOW()"@]
    };
    let d2: Seq<Seq<char>> = if table_has_column_named(c, tid, "updated_at"@) {
        Seq::empty()
    } else {
        seq![spec_quoted("updated_at"@) + " TIMESTAMPTZ NOT NULL DEFAULT NOW()"@]
    };
    let d3: Seq<Seq<char>> = if table_has_column_named(c, tid, "archived_at"@) {
        Seq::empty()
    } else {
        seq![spec_quoted("archived_at"@) + " TIMESTAMPTZ"@]
    };
    d1 + d2 + d3
}

pub open spec fn spec_pk_def(t: TableConfig) -> Seq<char> {
    "PRIMARY KEY ("@ + spec_join(
        Seq::new(spec_pk_names(t.primary_key).len(), |i: int| spec_quoted(spec_pk_names(t.primary_key)[i])),
        ", "@,
    ) + ")"@
}

pub open spec fn spec_unique_def(cols: Seq<String>) -> Seq<char> {
    "UNIQUE ("@ + spec_join(Seq::new(cols.len(), |i: int| spec_quoted(cols[i]@)), ", "@) + ")"@
}

pub open spec fn spec_check_def(name: Seq<char>, expression: Seq<char>) -> Seq<char> {
    "CONSTRAINT "@ + spec_quoted(name) + " CHECK ("@ + expression + ")"@
}

/// All definitions of a table: configured columns, injected audit
/// timestamps, the primary key, unique constraints, and checks.
pub open spec fn spec_table_defs(c: FullConfig, t: TableConfig) -> Seq<Seq<char>> {
    spec_col_defs(c.columns@, t.id@) + spec_audit_defs(c, t.id@) + seq![spec_pk_def(t)] + Seq::new(
        t.unique@.len(),
        |i: int| spec_unique_def(t.unique@[i]@),
    ) + Seq::new(t.check@.len(), |i: int| spec_check_def(t.check@[i].name@, t.check@[i].expression@))
}

pub open spec fn spec_create_table_sql(c: FullConfig, schema_name: Seq<char>, t: TableConfig) -> Seq<
    char,
> {
    "CREATE TABLE IF NOT EXISTS "@ + spec_quoted(schema_name) + "."@ + spec_quoted(t.name@) + " (\n  "@
        + spec_join(spec_table_defs(c, t), ",\n  "@) + "\n)"@
}

pub open spec fn spec_create_enum_sql(schema_name: Seq<char>, e: EnumConfig) -> Seq<char> {
    "CREATE TYPE "@ + spec_quoted(schema_name) + "."@ + spec_quoted(e.name@) + " AS ENUM ("@
        + spec_join(Seq::new(e.values@.len(), |i: int| spec_str_literal(e.values@[i]@)), ", "@) + ")"@
}

/// One indexed column as rendered: a plain name, a name with a direction,
/// or an expression emitted verbatim.
pub open spec fn spec_index_col(entry: IndexColumnEntry) -> Seq<char> {
    match entry {
        IndexColumnEntry::Name(n) => spec_quoted(n@),
        IndexColumnEntry::Spec { name, direction, nulls } => spec_quoted(name@) + (match direction {
            Some(d) => " "@ + upper_seq(d@),
            None => Seq::<char>::empty(),
        }),
        IndexColumnEntry::Expression { expression } => expression@,
    }
}

pub open spec fn spec_create_index_sql(
    schema_name: Seq<char>,
    table_name: Seq<char>,
    idx: IndexConfig,
) -> Seq<char> {
    let unique: Seq<char> = if idx.unique {
        "UNIQUE "@
    } else {
        Seq::<char>::empty()
    };
    let method: Seq<char> = match idx.method {
        Some(m) => m@,
        None => "btree"@,
    };
    let inc: Seq<char> = if idx.include_columns@.len() == 0 {
        Seq::<char>::empty()
    } else {
        " INCLUDE ("@ + spec_join(
            Seq::new(idx.include_columns@.len(), |i: int| spec_quoted(idx.include_columns@[i]@)),
            ", "@,
        ) + ")"@
    };
    let where_clause: Seq<char> = match idx.where_ {
        Some(w) => " WHERE "@ + w@,
        None => Seq::<char>::empty(),
    };
    "CREATE "@ + unique + "INDEX IF NOT EXISTS "@ + spec_quoted(idx.name@) + " ON "@ + spec_quoted(
        schema_name,
    ) + "."@ + spec_quoted(table_name) + " USING "@ + method + " ("@ + spec_join(
        Seq::new(idx.columns@.len(), |i: int| spec_index_col(idx.columns@[i])),
        ", "@,
    ) + ")"@ + inc + where_clause
}

pub open spec fn spec_fk_sql(
    from_schema: Seq<char>,
    from_table: Seq<char>,
    to_schema: Seq<char>,
    to_table: Seq<char>,
    from_col: Seq<char>,
    to_col: Seq<char>,
    rel: RelationshipConfig,
) -> Seq<char> {
    let constraint: Seq<char> = match rel.name {
        Some(n) => n@,
        None => rel.id@,
    };
    let on_update: Seq<char> = match rel.on_update {
        Some(u) => u@,
        None => "NO ACTION"@,
    };
    let on_delete: Seq<char> = match rel.on_delete {
        Some(d) => d@,
        None => "NO ACTION"@,
    };
    "ALTER TABLE "@ + spec_quoted(from_schema) + "."@ + spec_quoted(from_table) + " ADD CONSTRAINT "@
        + spec_quoted(constraint) + " FOREIGN KEY ("@ + spec_quoted(from_col) + ") REFERENCES "@
        + spec_quoted(to_schema) + "."@ + spec_quoted(to_table) + " ("@ + spec_quoted(to_col)
        + ") ON UPDATE "@ + on_update + " ON DELETE "@ + on_delete
}

/// The schema name an enum, table or index renders under.
pub open spec fn spec_schema_name_of(c: FullConfig, schema_id: Option<String>) -> Seq<char> {
    spec_find_schema(
        c.schemas@,
        effective_schema_id(schema_id, spec_default_schema_id(c)),
    )->0.name@
}

pub open spec fn spec_schema_stmts(ss: Seq<SchemaConfig>) -> Seq<DdlModel> {
    Seq::new(
        ss.len(),
        |i: int|
            DdlModel {
                sql: spec_create_schema_sql(ss[i].name@),
                kind: DdlKind::CreateSchema,
                tolerate_failure: false,
            },
    )
}

pub open spec fn spec_enum_stmts(c: FullConfig) -> Seq<DdlModel> {
    Seq::new(
        c.enums@.len(),
        |i: int|
            DdlModel {
                sql: spec_create_enum_sql(spec_schema_name_of(c, c.enums@[i].schema_id), c.enums@[i]),
                kind: DdlKind::CreateEnum,
                tolerate_failure: true,
            },
    )
}

pub open spec fn spec_table_stmts(c: FullConfig) -> Seq<DdlModel> {
    Seq::new(
        c.tables@.len(),
        |i: int|
            DdlModel {
                sql: spec_create_table_sql(
                    c,
                    spec_schema_name_of(c, c.tables@[i].schema_id),
                    c.tables@[i],
                ),
                kind: DdlKind::CreateTable,
                tolerate_failure: false,
            },
    )
}

pub open spec fn spec_index_stmts(c: FullConfig) -> Seq<DdlModel> {
    Seq::new(
        c.indexes@.len(),
        |i: int|
            DdlModel {
                sql: spec_create_index_sql(
                    spec_schema_name_of(c, c.indexes@[i].schema_id),
                    spec_find_table(c.tables@, c.indexes@[i].table_id@)->0.name@,
                    c.indexes@[i],
                ),
                kind: DdlKind::CreateIndex,
                tolerate_failure: true,
            },
    )
}

pub open spec fn spec_fk_stmts(c: FullConfig) -> Seq<DdlModel> {
    Seq::new(
        c.relationships@.len(),
        |i: int|
            {
                let rel = c.relationships@[i];
                DdlModel {
                    sql: spec_fk_sql(
                        spec_find_schema(c.schemas@, rel.from_schema_id@)->0.name@,
                        spec_find_table(c.tables@, rel.from_table_id@)->0.name@,
                        spec_find_schema(c.schemas@, rel.to_schema_id@)->0.name@,
                        spec_find_table(c.tables@, rel.to_table_id@)->0.name@,
                        spec_find_col_name(c.columns@, rel.from_column_id@)->0,
                        spec_find_col_name(c.columns@, rel.to_column_id@)->0,
                        rel,
                    ),
                    kind: DdlKind::AddForeignKey,
                    tolerate_failure: true,
                }
            },
    )
}

/// All statements of a configuration, in dependency order: schemas, enums,
/// tables, indexes, foreign keys.
pub open spec fn spec_render(c: FullConfig) -> Seq<DdlModel> {
    spec_schema_stmts(c.schemas@) + spec_enum_stmts(c) + spec_table_stmts(c) + spec_index_stmts(c)
        + spec_fk_stmts(c)
}

/// Quote a string literal for DDL by doubling internal single quotes.
fn str_literal(s: &str) -> (r: String)
    ensures
        r@ == spec_str_literal(s@),
{
    let cs = str_chars(s);
    let n = cs.len();
    let mut out: Vec<char> = Vec::new();
    out.push('\'');
    let mut i: usize = 0;
    proof {
        assert(s@.skip(0) =~= s@);
        assert(out@ =~= seq!['\''] + Seq::<char>::empty());
    }
    while i < n
        invariant
            i <= n,
            n == cs@.len(),
            cs@ == s@,
            out@ + spec_escape_literal(s@.skip(i as int)) == seq!['\''] + spec_escape_literal(s@),
        decreases n - i,
    {
        proof {
            assert(s@.skip(i as int).drop_first() =~= s@.skip(i as int + 1));
            assert(s@.skip(i as int)[0] == s@[i as int]);
        }
        let c = cs[i];
        if c == '\'' {
            out.push('\'');
            out.push('\'');
        } else {
            out.push(c);
        }
        i += 1;
    }
    proof {
        assert(s@.skip(n as int) =~= Seq::<char>::empty());
        assert(out@ + Seq::<char>::empty() =~= out@);
    }
    out.push('\'');
    proof {
        assert(out@ =~= spec_str_literal(s@));
    }
    chars_to_string(out)
}

/// Render the declared type of a column.
fn ddl_type(t: &ColumnTypeConfig) -> (r: String)
    ensures
        r@ == spec_ddl_type(*t),
{
    match t {
        ColumnTypeConfig::Simple(s) => s.clone(),
        ColumnTypeConfig::Parameterized { name, params } => match params {
            Some(ps) => {
                if ps.len() > 0 {
                    let ghost parts = Seq::new(ps@.len(), |i: int| spec_dec(ps@[i] as int));
                    let mut out = name.clone();
                    out.append("(");
                    let pn = ps.len();
                    let mut joined = String::new();
                    let mut i: usize = 0;
                    while i < pn
                        invariant
                            i <= pn,
                            pn == ps@.len(),
                            parts == Seq::new(ps@.len(), |k: int| spec_dec(ps@[k] as int)),
                            joined@ == spec_join(parts.take(i as int), ", "@),
                        decreases pn - i,
                    {
                        if i > 0 {
                            joined.append(", ");
                        }
                        let digits = u64_dec(ps[i] as u128);
                        let d = chars_to_string(digits);
                        joined.append(d.as_str());
                        proof {
                            crate::sqlgen::lemma_join_snoc(parts.take(i as int), parts[i as int], ", "@);
                            assert(parts.take(i as int).push(parts[i as int]) =~= parts.take(
                                i as int + 1,
                            ));
                        }
                        i += 1;
                    }
                    proof {
                        assert(parts.take(pn as int) =~= parts);
                    }
                    out.append(joined.as_str());
                    out.append(")");
                    proof {
                        assert(out@ =~= spec_ddl_type(*t));
                    }
                    out
                } else {
                    name.clone()
                }
            },
            None => name.clone(),
        },
    }
}

/// Render one column definition.
fn column_def(col: &ColumnConfig) -> (r: String)
    ensures
        r@ == spec_column_def(*col),
{
    let mut out = quoted(col.name.as_str());
    out.append(" ");
    let ty = ddl_type(&col.type_);
    out.append(ty.as_str());
    if !col.nullable {
        out.append(" NOT NULL");
    }
    match &col.default {
        Some(ColumnDefaultConfig::Literal(s)) => {
            out.append(" DEFAULT ");
            out.append(s.as_str());
        },
        Some(ColumnDefaultConfig::Expression { expression }) => {
            out.append(" DEFAULT ");
            out.append(expression.as_str());
        },
        None => (),
    }
    proof {
        assert(out@ =~= spec_column_def(*col));
    }
    out
}

/// Render the full `CREATE TABLE IF NOT EXISTS` statement of a table.
#[verifier::loop_isolation(false)]
fn create_table_sql(c: &FullConfig, schema_name: &str, t: &TableConfig) -> (r: String)
    ensures
        r@ == spec_create_table_sql(*c, schema_name@, *t),
{
    let mut defs: Vec<String> = Vec::new();
    let ncols = c.columns.len();
    let mut i: usize = 0;
    proof {
        assert(c.columns@.skip(0) =~= c.columns@);
        assert(crate::resolved::view_strs(defs@) =~= Seq::<Seq<char>>::empty());
        assert(Seq::<Seq<char>>::empty() + spec_col_defs(c.columns@, t.id@) =~= spec_col_defs(
            c.columns@,
            t.id@,
        ));
    }
    while i < ncols
        invariant
            i <= ncols,
            ncols == c.columns@.len(),
            crate::resolved::view_strs(defs@) + spec_col_defs(c.columns@.skip(i as int), t.id@)
                == spec_col_defs(c.columns@, t.id@),
        decreases ncols - i,
    {
        proof {
            assert(c.columns@.skip(i as int).drop_first() =~= c.columns@.skip(i as int + 1));
            assert(c.columns@.skip(i as int)[0] == c.columns@[i as int]);
        }
        let ghost prev = crate::resolved::view_strs(defs@);
        if str_eq(c.columns[i].table_id.as_str(), t.id.as_str()) {
            defs.push(column_def(&c.columns[i]));
            proof {
                assert(crate::resolved::view_strs(defs@) =~= prev.push(
                    spec_column_def(c.columns@[i as int]),
                ));
                assert(prev.push(spec_column_def(c.columns@[i as int])) =~= prev + seq![
                    spec_column_def(c.columns@[i as int]),
                ]);
            }
        }
        i += 1;
    }
    proof {
        assert(c.columns@.skip(ncols as int) =~= Seq::<ColumnConfig>::empty());
        assert(crate::resolved::view_strs(defs@) + Seq::<Seq<char>>::empty()
            =~= crate::resolved::view_strs(defs@));
    }
    let ghost base = crate::resolved::view_strs(defs@);

    // Injected audit timestamps, where the table does not declare them.
    let has_created = crate::validator::table_has_column(c, t.id.as_str(), "created_at");
    let has_updated = crate::validator::table_has_column(c, t.id.as_str(), "updated_at");
    let has_archived = crate::validator::table_has_column(c, t.id.as_str(), "archived_at");
    if !has_created {
        let mut d = quoted("created_at");
        d.append(" TIMESTAMPTZ NOT NULL DEFAULT NOW()");
        defs.push(d);
    }
    if !has_updated {
        let mut d = quoted("updated_at");
        d.append(" TIMESTAMPTZ NOT NULL DEFAULT NOW()");
        defs.push(d);
    }
    if !has_archived {
        let mut d = quoted("archived_at");
        d.append(" TIMESTAMPTZ");
        defs.push(d);
    }
    proof {
        assert(crate::resolved::view_strs(defs@) =~= base + spec_audit_defs(*c, t.id@));
    }

    // Primary key.
    let ghost with_audit = crate::resolved::view_strs(defs@);
    let pk_names = crate::resolver::pk_columns_of(&t.primary_key);
    let npk = pk_names.len();
    let ghost pk_parts = Seq::new(
        spec_pk_names(t.primary_key).len(),
        |i: int| spec_quoted(spec_pk_names(t.primary_key)[i]),
    );
    let mut pk_def = String::new();
    pk_def.append("PRIMARY KEY (");
    let mut joined = String::new();
    let mut i: usize = 0;
    while i < npk
        invariant
            i <= npk,
            npk == pk_names@.len(),
            crate::resolved::view_strs(pk_names@) == spec_pk_names(t.primary_key),
            pk_parts == Seq::new(
                spec_pk_names(t.primary_key).len(),
                |k: int| spec_quoted(spec_pk_names(t.primary_key)[k]),
            ),
            joined@ == spec_join(pk_parts.take(i as int), ", "@),
        decreases npk - i,
    {
        if i > 0 {
            joined.append(", ");
        }
        let q = quoted(pk_names[i].as_str());
        joined.append(q.as_str());
        proof {
            crate::sqlgen::lemma_join_snoc(pk_parts.take(i as int), pk_parts[i as int], ", "@);
            assert(crate::resolved::view_strs(pk_names@)[i as int] == pk_names@[i as int]@);
            assert(pk_parts.take(i as int).push(pk_parts[i as int]) =~= pk_parts.take(i as int + 1));
        }
        i += 1;
    }
    proof {
        assert(pk_parts.take(npk as int) =~= pk_parts);
    }
    pk_def.append(joined.as_str());
    pk_def.append(")");
    proof {
        assert(pk_def@ =~= spec_pk_def(*t));
    }
    defs.push(pk_def);

    // Unique constraints.
    let nuniq = t.unique.len();
    let mut i: usize = 0;
    proof {
        assert(crate::resolved::view_strs(defs@) =~= with_audit + seq![spec_pk_def(*t)]);
    }
    while i < nuniq
        invariant
            i <= nuniq,
            nuniq == t.unique@.len(),
            crate::resolved::view_strs(defs@) == with_audit + seq![spec_pk_def(*t)] + Seq::new(
                i as nat,
                |k: int| spec_unique_def(t.unique@[k]@),
            ),
        decreases nuniq - i,
    {
        let ghost prev = crate::resolved::view_strs(defs@);
        let cols = &t.unique[i];
        let ghost uparts = Seq::new(cols@.len(), |k: int| spec_quoted(cols@[k]@));
        let mut u = String::new();
        u.append("UNIQUE (");
        let mut joined = String::new();
        let ncu = cols.len();
        let mut j: usize = 0;
        while j < ncu
            invariant
                j <= ncu,
                ncu == cols@.len(),
                uparts == Seq::new(cols@.len(), |k: int| spec_quoted(cols@[k]@)),
                joined@ == spec_join(uparts.take(j as int), ", "@),
            decreases ncu - j,
        {
            if j > 0 {
                joined.append(", ");
            }
            let q = quoted(cols[j].as_str());
            joined.append(q.as_str());
            proof {
                crate::sqlgen::lemma_join_snoc(uparts.take(j as int), uparts[j as int], ", "@);
                assert(uparts.take(j as int).push(uparts[j as int]) =~= uparts.take(j as int + 1));
            }
            j += 1;
        }
        proof {
            assert(uparts.take(ncu as int) =~= uparts);
        }
        u.append(joined.as_str());
        u.append(")");
        proof {
            assert(u@ =~= spec_unique_def(t.unique@[i as int]@));
        }
        let ghost prev = crate::resolved::view_strs(defs@);
        defs.push(u);
        proof {
            assert(crate::resolved::view_strs(defs@) =~~= prev.push(
                spec_unique_def(t.unique@[i as int]@),
            ));
            assert(prev.push(spec_unique_def(t.unique@[i as int]@)) =~~= with_audit + seq![
                spec_pk_def(*t),
            ] + Seq::new((i + 1) as nat, |k: int| spec_unique_def(t.unique@[k]@)));
        }
        i += 1;
    }

    // Check constraints.
    let ncheck = t.check.len();
    let mut i: usize = 0;
    while i < ncheck
        invariant
            i <= ncheck,
            ncheck == t.check@.len(),
            crate::resolved::view_strs(defs@) == with_audit + seq![spec_pk_def(*t)] + Seq::new(
                t.unique@.len(),
                |k: int| spec_unique_def(t.unique@[k]@),
            ) + Seq::new(i as nat, |k: int| spec_check_def(t.check@[k].name@, t.check@[k].expression@)),
        decreases ncheck - i,
    {
        let mut chk = String::new();
        chk.append("CONSTRAINT ");
        let q = quoted(t.check[i].name.as_str());
        chk.append(q.as_str());
        chk.append(" CHECK (");
        chk.append(t.check[i].expression.as_str());
        chk.append(")");
        proof {
            assert(chk@ =~= spec_check_def(t.check@[i as int].name@, t.check@[i as int].expression@));
        }
        let ghost prev = crate::resolved::view_strs(defs@);
        defs.push(chk);
        proof {
            assert(crate::resolved::view_strs(defs@) =~~= prev.push(
                spec_check_def(t.check@[i as int].name@, t.check@[i as int].expression@),
            ));
            assert(prev.push(
                spec_check_def(t.check@[i as int].name@, t.check@[i as int].expression@),
            ) =~~= with_audit + seq![spec_pk_def(*t)] + Seq::new(
                t.unique@.len(),
                |k: int| spec_unique_def(t.unique@[k]@),
            ) + Seq::new(
                (i + 1) as nat,
                |k: int| spec_check_def(t.check@[k].name@, t.check@[k].expression@),
            ));
        }
        i += 1;
    }
    proof {
        assert(crate::resolved::view_strs(defs@) =~= spec_table_defs(*c, *t));
    }

    let mut sql = String::new();
    sql.append("CREATE TABLE IF NOT EXISTS ");
    let qs = quoted(schema_name);
    sql.append(qs.as_str());
    sql.append(".");
    let qt = quoted(t.name.as_str());
    sql.append(qt.as_str());
    sql.append(" (\n  ");
    let body = crate::sqlgen::join_strings(&defs, ",\n  ");
    sql.append(body.as_str());
    sql.append("\n)");
    proof {
        assert(sql@ =~= spec_create_table_sql(*c, schema_name@, *t));
    }
    sql
}

/// Render the `CREATE TYPE ... AS ENUM` statement of an enum.
fn create_enum_sql(schema_name: &str, e: &EnumConfig) -> (r: String)
    ensures
        r@ == spec_create_enum_sql(schema_name@, *e),
{
    let ghost parts = Seq::new(e.values@.len(), |i: int| spec_str_literal(e.values@[i]@));
    let mut sql = String::new();
    sql.append("CREATE TYPE ");
    let qs = quoted(schema_name);
    sql.append(qs.as_str());
    sql.append(".");
    let qn = quoted(e.name.as_str());
    sql.append(qn.as_str());
    sql.append(" AS ENUM (");
    let n = e.values.len();
    let mut joined = String::new();
    let mut i: usize = 0;
    while i < n
        invariant
            i <= n,
            n == e.values@.len(),
            parts == Seq::new(e.values@.len(), |k: int| spec_str_literal(e.values@[k]@)),
            joined@ == spec_join(parts.take(i as int), ", "@),
        decreases n - i,
    {
        if i > 0 {
            joined.append(", ");
        }
        let lit = str_literal(e.values[i].as_str());
        joined.append(lit.as_str());
        proof {
            crate::sqlgen::lemma_join_snoc(parts.take(i as int), parts[i as int], ", "@);
            assert(parts.take(i as int).push(parts[i as int]) =~= parts.take(i as int + 1));
        }
        i += 1;
    }
    proof {
        assert(parts.take(n as int) =~= parts);
    }
    sql.append(joined.as_str());
    sql.append(")");
    proof {
        assert(sql@ =~= spec_create_enum_sql(schema_name@, *e));
    }
    sql
}

/// Render the `CREATE INDEX IF NOT EXISTS` statement of an index.
fn create_index_sql(schema_name: &str, table_name: &str, idx: &IndexConfig) -> (r: String)
    ensures
        r@ == spec_create_index_sql(schema_name@, table_name@, *idx),
{
    let ghost parts = Seq::new(idx.columns@.len(), |i: int| spec_index_col(idx.columns@[i]));
    let mut sql = String::new();
    sql.append("CREATE ");
    if idx.unique {
        sql.append("UNIQUE ");
    }
    sql.append("INDEX IF NOT EXISTS ");
    let qn = quoted(idx.name.as_str());
    sql.append(qn.as_str());
    sql.append(" ON ");
    let qs = quoted(schema_name);
    sql.append(qs.as_str());
    sql.append(".");
    let qt = quoted(table_name);
    sql.append(qt.as_str());
    sql.append(" USING ");
    match &idx.method {
        Some(m) => sql.append(m.as_str()),
        None => sql.append("btree"),
    }
    sql.append(" (");
    let n = idx.columns.len();
    let mut joined = String::new();
    let mut i: usize = 0;
    while i < n
        invariant
            i <= n,
            n == idx.columns@.len(),
            parts == Seq::new(idx.columns@.len(), |k: int| spec_index_col(idx.columns@[k])),
            joined@ == spec_join(parts.take(i as int), ", "@),
        decreases n - i,
    {
        if i > 0 {
            joined.append(", ");
        }
        match &idx.columns[i] {
            IndexColumnEntry::Name(nm) => {
                let q = quoted(nm.as_str());
                joined.append(q.as_str());
            },
            IndexColumnEntry::Spec { name, direction, nulls } => {
                let q = quoted(name.as_str());
                joined.append(q.as_str());
                match direction {
                    Some(d) => {
                        joined.append(" ");
                        let u = upper_ascii_str(d.as_str());
                        joined.append(u.as_str());
                    },
                    None => (),
                }
            },
            IndexColumnEntry::Expression { expression } => {
                joined.append(expression.as_str());
            },
        }
        proof {
            crate::sqlgen::lemma_join_snoc(parts.take(i as int), parts[i as int], ", "@);
            assert(parts.take(i as int).push(parts[i as int]) =~= parts.take(i as int + 1));
        }
        i += 1;
    }
    proof {
        assert(parts.take(n as int) =~= parts);
    }
    sql.append(joined.as_str());
    sql.append(")");
    if idx.include_columns.len() > 0 {
        let ghost iparts = Seq::new(
            idx.include_columns@.len(),
            |i: int| spec_quoted(idx.include_columns@[i]@),
        );
        sql.append(" INCLUDE (");
        let m = idx.include_columns.len();
        let mut joined = String::new();
        let mut i: usize = 0;
        while i < m
            invariant
                i <= m,
                m == idx.include_columns@.len(),
                iparts == Seq::new(
                    idx.include_columns@.len(),
                    |k: int| spec_quoted(idx.include_columns@[k]@),
                ),
                joined@ == spec_join(iparts.take(i as int), ", "@),
            decreases m - i,
        {
            if i > 0 {
                joined.append(", ");
            }
            let q = quoted(idx.include_columns[i].as_str());
            joined.append(q.as_str());
            proof {
                crate::sqlgen::lemma_join_snoc(iparts.take(i as int), iparts[i as int], ", "@);
                assert(iparts.take(i as int).push(iparts[i as int]) =~= iparts.take(i as int + 1));
            }
            i += 1;
        }
        proof {
            assert(iparts.take(m as int) =~= iparts);
        }
        sql.append(joined.as_str());
        sql.append(")");
    }
    match &idx.where_ {
        Some(w) => {
            sql.append(" WHERE ");
            sql.append(w.as_str());
        },
        None => (),
    }
    proof {
        assert(sql@ =~= spec_create_index_sql(schema_name@, table_name@, *idx));
    }
    sql
}

/// Render the DDL of a validated configuration, in dependency order:
/// schemas, then enums, tables, indexes, and foreign keys. Rendering is a
/// pure function of the configuration — the result is pinned to
/// `spec_render` — so an unchanged configuration always yields the same
/// statements.
#[verifier::loop_isolation(false)]
pub fn render_migrations(config: &FullConfig) -> (r: Result<Vec<DdlStatement>, ConfigError>)
    ensures
        r is Ok <==> config_valid(*config),
        r is Ok ==> view_stmts(r->Ok_0@) == spec_render(*config),
        r is Err ==> error_witnessed(*config, r->Err_0),
{
    match validate(config) {
        Ok(()) => (),
        Err(e) => {
            return Err(e);
        },
    }
    let default_sid = match default_schema_id(config) {
        Ok(s) => s,
        Err(e) => {
            return Err(e);
        },
    };
    let mut out: Vec<DdlStatement> = Vec::new();

    let ns = config.schemas.len();
    let mut i: usize = 0;
    while i < ns
        invariant
            i <= ns,
            out@.len() == i,
            forall|j: int| 0 <= j < i ==> #[trigger] out@[j]@ == spec_schema_stmts(config.schemas@)[j],
        decreases ns - i,
    {
        let mut sql = String::new();
        sql.append("CREATE SCHEMA IF NOT EXISTS ");
        let q = quoted(config.schemas[i].name.as_str());
        sql.append(q.as_str());
        proof {
            assert(sql@ =~= spec_create_schema_sql(config.schemas@[i as int].name@));
        }
        out.push(DdlStatement { sql, kind: DdlKind::CreateSchema, tolerate_failure: false });
        i += 1;
    }

    let ne = config.enums.len();
    let mut i: usize = 0;
    while i < ne
        invariant
            i <= ne,
            out@.len() == ns + i,
            forall|j: int| 0 <= j < ns ==> #[trigger] out@[j]@ == spec_schema_stmts(config.schemas@)[j],
            forall|j: int| 0 <= j < i ==> #[trigger] out@[ns + j]@ == spec_enum_stmts(*config)[j],
        decreases ne - i,
    {
        let e = &config.enums[i];
        proof {
            assert(has_schema_id(
                *config,
                effective_schema_id(config.enums@[i as int].schema_id, spec_default_schema_id(*config)),
            ));
            lemma_find_schema_some(
                config.schemas@,
                effective_schema_id(e.schema_id, spec_default_schema_id(*config)),
            );
        }
        let sid = record_schema_id(&e.schema_id, default_sid);
        let schema = match crate::resolver::find_schema(&config.schemas, sid) {
            Some(s) => s,
            None => {
                return Err(
                    ConfigError::MissingReference { kind: "schema".to_owned(), id: sid.to_owned() },
                );
            },
        };
        let sql = create_enum_sql(schema.name.as_str(), e);
        out.push(DdlStatement { sql, kind: DdlKind::CreateEnum, tolerate_failure: true });
        i += 1;
    }

    let nt = config.tables.len();
    let mut i: usize = 0;
    while i < nt
        invariant
            i <= nt,
            out@.len() == ns + ne + i,
            forall|j: int| 0 <= j < ns ==> #[trigger] out@[j]@ == spec_schema_stmts(config.schemas@)[j],
            forall|j: int| 0 <= j < ne ==> #[trigger] out@[ns + j]@ == spec_enum_stmts(*config)[j],
            forall|j: int| 0 <= j < i ==> #[trigger] out@[ns + ne + j]@ == spec_table_stmts(*config)[j],
        decreases nt - i,
    {
        let t = &config.tables[i];
        proof {
            assert(has_schema_id(
                *config,
                effective_schema_id(config.tables@[i as int].schema_id, spec_default_schema_id(*config)),
            ));
            lemma_find_schema_some(
                config.schemas@,
                effective_schema_id(t.schema_id, spec_default_schema_id(*config)),
            );
        }
        let sid = record_schema_id(&t.schema_id, default_sid);
        let schema = match crate::resolver::find_schema(&config.schemas, sid) {
            Some(s) => s,
            None => {
                return Err(
                    ConfigError::MissingReference { kind: "schema".to_owned(), id: sid.to_owned() },
                );
            },
        };
        let sql = create_table_sql(config, schema.name.as_str(), t);
        out.push(DdlStatement { sql, kind: DdlKind::CreateTable, tolerate_failure: false });
        i += 1;
    }

    let ni = config.indexes.len();
    let mut i: usize = 0;
    while i < ni
        invariant
            i <= ni,
            out@.len() == ns + ne + nt + i,
            forall|j: int| 0 <= j < ns ==> #[trigger] out@[j]@ == spec_schema_stmts(config.schemas@)[j],
            forall|j: int| 0 <= j < ne ==> #[trigger] out@[ns + j]@ == spec_enum_stmts(*config)[j],
            forall|j: int| 0 <= j < nt ==> #[trigger] out@[ns + ne + j]@ == spec_table_stmts(*config)[j],
            forall|j: int|
                0 <= j < i ==> #[trigger] out@[ns + ne + nt + j]@ == spec_index_stmts(*config)[j],
        decreases ni - i,
    {
        let idx = &config.indexes[i];
        proof {
            assert(has_schema_id(
                *config,
                effective_schema_id(config.indexes@[i as int].schema_id, spec_default_schema_id(*config)),
            ));
            assert(has_table_id(*config, config.indexes@[i as int].table_id@));
            lemma_find_schema_some(
                config.schemas@,
                effective_schema_id(idx.schema_id, spec_default_schema_id(*config)),
            );
            lemma_find_table_some(config.tables@, idx.table_id@);
        }
        let sid = record_schema_id(&idx.schema_id, default_sid);
        let schema = match crate::resolver::find_schema(&config.schemas, sid) {
            Some(s) => s,
            None => {
                return Err(
                    ConfigError::MissingReference { kind: "schema".to_owned(), id: sid.to_owned() },
                );
            },
        };
        let table = match crate::resolver::find_table(&config.tables, idx.table_id.as_str()) {
            Some(t) => t,
            None => {
                return Err(
                    ConfigError::MissingReference {
                        kind: "table".to_owned(),
                        id: idx.table_id.clone(),
                    },
                );
            },
        };
        let sql = create_index_sql(schema.name.as_str(), table.name.as_str(), idx);
        out.push(DdlStatement { sql, kind: DdlKind::CreateIndex, tolerate_failure: true });
        i += 1;
    }

    let nr = config.relationships.len();
    let mut i: usize = 0;
    while i < nr
        invariant
            i <= nr,
            out@.len() == ns + ne + nt + ni + i,
            forall|j: int| 0 <= j < ns ==> #[trigger] out@[j]@ == spec_schema_stmts(config.schemas@)[j],
            forall|j: int| 0 <= j < ne ==> #[trigger] out@[ns + j]@ == spec_enum_stmts(*config)[j],
            forall|j: int| 0 <= j < nt ==> #[trigger] out@[ns + ne + j]@ == spec_table_stmts(*config)[j],
            forall|j: int|
                0 <= j < ni ==> #[trigger] out@[ns + ne + nt + j]@ == spec_index_stmts(*config)[j],
            forall|j: int|
                0 <= j < i ==> #[trigger] out@[ns + ne + nt + ni + j]@ == spec_fk_stmts(*config)[j],
        decreases nr - i,
    {
        let rel = &config.relationships[i];
        proof {
            assert(config.relationships@[i as int] == *rel);
            lemma_find_schema_some(config.schemas@, rel.from_schema_id@);
            lemma_find_schema_some(config.schemas@, rel.to_schema_id@);
            lemma_find_table_some(config.tables@, rel.from_table_id@);
            lemma_find_table_some(config.tables@, rel.to_table_id@);
            lemma_find_col_name_some(config.columns@, rel.from_column_id@);
            lemma_find_col_name_some(config.columns@, rel.to_column_id@);
        }
        let from_schema = match crate::resolver::find_schema(&config.schemas, rel.from_schema_id.as_str()) {
            Some(s) => s,
            None => {
                return Err(
                    ConfigError::MissingReference {
                        kind: "schema".to_owned(),
                        id: rel.from_schema_id.clone(),
                    },
                );
            },
        };
        let to_schema = match crate::resolver::find_schema(&config.schemas, rel.to_schema_id.as_str()) {
            Some(s) => s,
            None => {
                return Err(
                    ConfigError::MissingReference {
                        kind: "schema".to_owned(),
                        id: rel.to_schema_id.clone(),
                    },
                );
            },
        };
        let from_table = match crate::resolver::find_table(&config.tables, rel.from_table_id.as_str()) {
            Some(t) => t,
            None => {
                return Err(
                    ConfigError::MissingReference {
                        kind: "table".to_owned(),
                        id: rel.from_table_id.clone(),
                    },
                );
            },
        };
        let to_table = match crate::resolver::find_table(&config.tables, rel.to_table_id.as_str()) {
            Some(t) => t,
            None => {
                return Err(
                    ConfigError::MissingReference {
                        kind: "table".to_owned(),
                        id: rel.to_table_id.clone(),
                    },
                );
            },
        };
        let from_col = match crate::resolver::find_col_name(&config.columns, rel.from_column_id.as_str()) {
            Some(n) => n,
            None => {
                return Err(
                    ConfigError::MissingReference {
                        kind: "column".to_owned(),
                        id: rel.from_column_id.clone(),
                    },
                );
            },
        };
        let to_col = match crate::resolver::find_col_name(&config.columns, rel.to_column_id.as_str()) {
            Some(n) => n,
            None => {
                return Err(
                    ConfigError::MissingReference {
                        kind: "column".to_owned(),
                        id: rel.to_column_id.clone(),
                    },
                );
            },
        };
        let sql = fk_sql(
            from_schema.name.as_str(),
            from_table.name.as_str(),
            to_schema.name.as_str(),
            to_table.name.as_str(),
            from_col.as_str(),
            to_col.as_str(),
            rel,
        );
        out.push(DdlStatement { sql, kind: DdlKind::AddForeignKey, tolerate_failure: true });
        i += 1;
    }

    proof {
        assert forall|k: int| 0 <= k < out@.len() implies out@[k]@ == spec_render(*config)[k] by {
            if k < ns {
                assert(out@[k]@ == spec_schema_stmts(config.schemas@)[k]);
            } else if k < ns + ne {
                assert(out@[ns + (k - ns)]@ == spec_enum_stmts(*config)[k - ns]);
            } else if k < ns + ne + nt {
                assert(out@[ns + ne + (k - ns - ne)]@ == spec_table_stmts(*config)[k - ns - ne]);
            } else if k < ns + ne + nt + ni {
                assert(out@[ns + ne + nt + (k - ns - ne - nt)]@ == spec_index_stmts(*config)[k - ns
                    - ne - nt]);
            } else {
                assert(out@[ns + ne + nt + ni + (k - ns - ne - nt - ni)]@ == spec_fk_stmts(
                    *config,
                )[k - ns - ne - nt - ni]);
            }
        }
        assert(view_stmts(out@) =~= spec_render(*config));
    }
    Ok(out)
}

/// Additive-DDL law: every rendered statement either carries
/// `IF NOT EXISTS`, so rerunning it on an unchanged configuration changes
/// nothing, or is marked tolerated, so a failure because the object
/// already exists is ignored. Together with rendering being a pure
/// function, rerunning migrations on an unchanged configuration is a
/// no-op.
pub proof fn lemma_ddl_additive(c: FullConfig)
    ensures
        forall|i: int|
            0 <= i < spec_render(c).len() ==> {
                let s = #[trigger] spec_render(c)[i];
                &&& s.tolerate_failure == (s.kind is CreateEnum || s.kind is CreateIndex
                    || s.kind is AddForeignKey)
                &&& (s.kind is CreateSchema ==> spec_starts_with(
                    s.sql,
                    "CREATE SCHEMA IF NOT EXISTS "@,
                ))
                &&& (s.kind is CreateTable ==> spec_starts_with(
                    s.sql,
                    "CREATE TABLE IF NOT EXISTS "@,
                ))
            },
{
    let ns = c.schemas@.len() as int;
    let ne = c.enums@.len() as int;
    let nt = c.tables@.len() as int;
    let ni = c.indexes@.len() as int;
    assert forall|i: int| 0 <= i < spec_render(c).len() implies {
        let s = #[trigger] spec_render(c)[i];
        &&& s.tolerate_failure == (s.kind is CreateEnum || s.kind is CreateIndex
            || s.kind is AddForeignKey)
        &&& (s.kind is CreateSchema ==> spec_starts_with(s.sql, "CREATE SCHEMA IF NOT EXISTS "@))
        &&& (s.kind is CreateTable ==> spec_starts_with(s.sql, "CREATE TABLE IF NOT EXISTS "@))
    } by {
        let s = spec_render(c)[i];
        if i < ns {
            assert(s == spec_schema_stmts(c.schemas@)[i]);
            let pre = "CREATE SCHEMA IF NOT EXISTS "@;
            assert(s.sql.subrange(0, pre.len() as int) =~= pre);
        } else if i < ns + ne {
            assert(s == spec_enum_stmts(c)[i - ns]);
        } else if i < ns + ne + nt {
            assert(s == spec_table_stmts(c)[i - ns - ne]);
            let pre = "CREATE TABLE IF NOT EXISTS "@;
            assert(s.sql.subrange(0, pre.len() as int) =~= pre);
        } else if i < ns + ne + nt + ni {
            assert(s == spec_index_stmts(c)[i - ns - ne - nt]);
        } else {
            assert(s == spec_fk_stmts(c)[i - ns - ne - nt - ni]);
        }
    }
}

/// Render the `ALTER TABLE ... ADD CONSTRAINT ... FOREIGN KEY` statement
/// of a relationship.
fn fk_sql(
    from_schema: &str,
    from_table: &str,
    to_schema: &str,
    to_table: &str,
    from_col: &str,
    to_col: &str,
    rel: &RelationshipConfig,
) -> (r: String)
    ensures
        r@ == spec_fk_sql(from_schema@, from_table@, to_schema@, to_table@, from_col@, to_col@, *rel),
{
    let mut sql = String::new();
    sql.append("ALTER TABLE ");
    let q1 = quoted(from_schema);
    sql.append(q1.as_str());
    sql.append(".");
    let q2 = quoted(from_table);
    sql.append(q2.as_str());
    sql.append(" ADD CONSTRAINT ");
    let constraint = match &rel.name {
        Some(n) => quoted(n.as_str()),
        None => quoted(rel.id.as_str()),
    };
    sql.append(constraint.as_str());
    sql.append(" FOREIGN KEY (");
    let q3 = quoted(from_col);
    sql.append(q3.as_str());
    sql.append(") REFERENCES ");
    let q4 = quoted(to_schema);
    sql.append(q4.as_str());
    sql.append(".");
    let q5 = quoted(to_table);
    sql.append(q5.as_str());
    sql.append(" (");
    let q6 = quoted(to_col);
    sql.append(q6.as_str());
    sql.append(") ON UPDATE ");
    match &rel.on_update {
        Some(u) => sql.append(u.as_str()),
        None => sql.append("NO ACTION"),
    }
    sql.append(" ON DELETE ");
    match &rel.on_delete {
        Some(d) => sql.append(d.as_str()),
        None => sql.append("NO ACTION"),
    }
    proof {
        assert(sql@ =~= spec_fk_sql(
            from_schema@,
            from_table@,
            to_schema@,
            to_table@,
            from_col@,
            to_col@,
            *rel,
        ));
    }
    sql
}

} // verus!
