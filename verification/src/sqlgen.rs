//! Parameterized SQL construction, driven only by the resolved model.
//!
//! Every builder returns the statement text together with its positional
//! parameters `$1..$n`; the text is pinned to a spec-level rendering of the
//! entity model, so equal models render equal SQL. Identifiers are quoted
//! by doubling internal double quotes; values always travel as parameters.

use vstd::prelude::*;
use vstd::string::*;

use crate::json::{Json, JsonValue, view_json, view_json_pairs};
use crate::resolved::{ColumnModel, EntityModel, ResolvedEntity};
use crate::strutil::{chars_to_string, str_chars, str_eq};

verus! {

/// A statement and its positional parameters.
pub struct QueryBuf {
    pub sql: String,
    pub params: Vec<JsonValue>,
}

/// A request body or filter set: keys (snake_case column names) with values.
pub type BodyMap = Vec<(String, JsonValue)>;

/// An identifier with internal double quotes doubled.
pub open spec fn spec_escape_ident(s: Seq<char>) -> Seq<char>
    decreases s.len(),
{
    if s.len() == 0 {
        Seq::empty()
    } else {
        (if s[0] == '"' {
            seq!['"', '"']
        } else {
            seq![s[0]]
        }) + spec_escape_ident(s.drop_first())
    }
}

/// A quoted identifier.
pub open spec fn spec_quoted(s: Seq<char>) -> Seq<char> {
    seq!['"'] + spec_escape_ident(s) + seq!['"']
}

/// A schema-qualified table reference.
pub open spec fn spec_qualified_table(schema: Seq<char>, table: Seq<char>) -> Seq<char> {
    spec_quoted(schema) + "."@ + spec_quoted(table)
}

/// The parts joined with a separator between neighbours.
pub open spec fn spec_join(parts: Seq<Seq<char>>, sep: Seq<char>) -> Seq<char>
    decreases parts.len(),
{
    if parts.len() == 0 {
        Seq::empty()
    } else if parts.len() == 1 {
        parts[0]
    } else {
        parts[0] + sep + spec_join(parts.drop_first(), sep)
    }
}

/// The decimal digit character for a value below ten.
pub open spec fn spec_digit(d: int) -> char {
    ((48 + d) as u8) as char
}

/// The decimal rendering of a non-negative number.
pub open spec fn spec_dec(n: int) -> Seq<char>
    decreases n,
{
    if n < 10 {
        seq![spec_digit(n)]
    } else {
        spec_dec(n / 10).push(spec_digit(n % 10))
    }
}

/// A positional placeholder `$n`.
pub open spec fn spec_placeholder(n: int) -> Seq<char> {
    "$"@ + spec_dec(n)
}

/// A placeholder with an optional SQL cast, `$n::type`.
pub open spec fn spec_cast_placeholder(n: int, pg_type: Option<Seq<char>>) -> Seq<char> {
    match pg_type {
        Some(t) => spec_placeholder(n) + "::"@ + t,
        None => spec_placeholder(n),
    }
}

/// Whether a column is projected as text so the driver returns a stable
/// textual form: custom (schema-qualified) types and numerics.
pub open spec fn spec_casts_text(c: ColumnModel) -> bool {
    match c.pg_type {
        Some(t) => t.contains('.') || t == "numeric"@,
        None => false,
    }
}

/// The projection expression of one column.
pub open spec fn spec_col_expr(c: ColumnModel) -> Seq<char> {
    if spec_casts_text(c) {
        spec_quoted(c.name) + "::text"@
    } else {
        spec_quoted(c.name)
    }
}

/// The projection list of an entity's columns.
pub open spec fn spec_select_cols(cols: Seq<ColumnModel>) -> Seq<char> {
    spec_join(Seq::new(cols.len(), |i: int| spec_col_expr(cols[i])), ", "@)
}

/// The schema used in a statement: the override when present, else the
/// entity's declared schema.
pub open spec fn spec_schema_of(e: EntityModel, so: Option<Seq<char>>) -> Seq<char> {
    match so {
        Some(s) => s,
        None => e.schema_name,
    }
}

/// The first column with the given name.
pub open spec fn spec_col_named(cols: Seq<ColumnModel>, name: Seq<char>) -> Option<ColumnModel>
    decreases cols.len(),
{
    if cols.len() == 0 {
        None
    } else if cols[0].name == name {
        Some(cols[0])
    } else {
        spec_col_named(cols.drop_first(), name)
    }
}

/// An entity the builders accept: it has a primary-key column.
pub open spec fn entity_wf(e: EntityModel) -> bool {
    e.pk_columns.len() > 0
}

/// `SELECT <cols> FROM <schema>.<table> WHERE <pk> = $1`, for a single row
/// by primary key; the caller binds the id as the sole parameter.
pub open spec fn spec_select_by_id(e: EntityModel, so: Option<Seq<char>>) -> Seq<char> {
    "SELECT "@ + spec_select_cols(e.columns) + " FROM "@ + spec_qualified_table(
        spec_schema_of(e, so),
        e.table_name,
    ) + " WHERE "@ + spec_quoted(e.pk_columns[0]) + " = $1"@
}

/// The equality fragments and kept values of a filter list: a filter is
/// kept when its key names a column of the entity, its placeholder is cast
/// when the column carries a pg_type hint, and parameters are numbered from
/// `n` in filter order.
pub open spec fn spec_filter_parts(
    cols: Seq<ColumnModel>,
    fs: Seq<(Seq<char>, Json)>,
    n: int,
    prefix: Seq<char>,
) -> (Seq<Seq<char>>, Seq<Json>)
    decreases fs.len(),
{
    if fs.len() == 0 {
        (Seq::empty(), Seq::empty())
    } else {
        match spec_col_named(cols, fs[0].0) {
            Some(c) => {
                let frag = prefix + spec_quoted(fs[0].0) + " = "@ + spec_cast_placeholder(
                    n,
                    c.pg_type,
                );
                let rest = spec_filter_parts(cols, fs.drop_first(), n + 1, prefix);
                (seq![frag] + rest.0, seq![fs[0].1] + rest.1)
            },
            None => spec_filter_parts(cols, fs.drop_first(), n, prefix),
        }
    }
}

/// The clamped row limit: at most 1000.
pub open spec fn spec_clamp_limit(n: u32) -> int {
    if n > 1000 {
        1000int
    } else {
        n as int
    }
}

/// A list statement: optional equality filters over recognized columns,
/// a fixed ordering on the primary key, the limit clamped to 1000, and an
/// optional offset.
pub open spec fn spec_select_list(
    e: EntityModel,
    fs: Seq<(Seq<char>, Json)>,
    limit: Option<u32>,
    offset: Option<u32>,
    so: Option<Seq<char>>,
) -> Seq<char> {
    let parts = spec_filter_parts(e.columns, fs, 1, ""@).0;
    let where_clause = if parts.len() == 0 {
        Seq::<char>::empty()
    } else {
        " WHERE "@ + spec_join(parts, " AND "@)
    };
    let order_clause = " ORDER BY "@ + spec_quoted(e.pk_columns[0]);
    let limit_clause = match limit {
        Some(l) => " LIMIT "@ + spec_dec(spec_clamp_limit(l)),
        None => Seq::<char>::empty(),
    };
    let offset_clause = match offset {
        Some(o) => " OFFSET "@ + spec_dec(o as int),
        None => Seq::<char>::empty(),
    };
    "SELECT "@ + spec_select_cols(e.columns) + " FROM "@ + spec_qualified_table(
        spec_schema_of(e, so),
        e.table_name,
    ) + where_clause + order_clause + limit_clause + offset_clause
}

/// The kept filter values of a list statement, in filter order.
pub open spec fn spec_list_params(e: EntityModel, fs: Seq<(Seq<char>, Json)>) -> Seq<Json> {
    spec_filter_parts(e.columns, fs, 1, ""@).1
}

/// Clamp law: any limit above 1000 renders exactly as 1000.
pub proof fn lemma_limit_clamped(
    e: EntityModel,
    fs: Seq<(Seq<char>, Json)>,
    limit: u32,
    offset: Option<u32>,
    so: Option<Seq<char>>,
)
    requires
        limit > 1000,
    ensures
        spec_select_list(e, fs, Some(limit), offset, so) == spec_select_list(
            e,
            fs,
            Some(1000u32),
            offset,
            so,
        ),
{
}

/// Quote an identifier for PostgreSQL by doubling internal double quotes.
pub fn quoted(s: &str) -> (r: String)
    ensures
        r@ == spec_quoted(s@),
{
    let cs = str_chars(s);
    let n = cs.len();
    let mut out: Vec<char> = Vec::new();
    out.push('"');
    let mut i: usize = 0;
    proof {
        assert(s@.skip(0) =~= s@);
        assert(out@ =~= seq!['"'] + Seq::<char>::empty());
    }
    while i < n
        invariant
            i <= n,
            n == cs@.len(),
            cs@ == s@,
            out@ + spec_escape_ident(s@.skip(i as int)) == seq!['"'] + spec_escape_ident(s@),
        decreases n - i,
    {
        proof {
            assert(s@.skip(i as int).drop_first() =~= s@.skip(i as int + 1));
            assert(s@.skip(i as int)[0] == s@[i as int]);
        }
        let c = cs[i];
        if c == '"' {
            out.push('"');
            out.push('"');
        } else {
            out.push(c);
        }
        i += 1;
    }
    proof {
        assert(s@.skip(n as int) =~= Seq::<char>::empty());
        assert(out@ + Seq::<char>::empty() =~= out@);
    }
    out.push('"');
    proof {
        assert(out@ =~= spec_quoted(s@));
    }
    chars_to_string(out)
}

/// Render a number in decimal.
pub fn u64_dec(n: u128) -> (r: Vec<char>)
    ensures
        r@ == spec_dec(n as int),
    decreases n,
{
    if n < 10 {
        let mut out: Vec<char> = Vec::new();
        let d: u8 = 48 + (n as u8);
        out.push(d as char);
        proof {
            assert(out@ =~= spec_dec(n as int));
        }
        out
    } else {
        let mut out = u64_dec(n / 10);
        let d: u8 = 48 + ((n % 10) as u8);
        out.push(d as char);
        out
    }
}

/// Append a decimal rendering to a string.
fn append_dec(dst: &mut String, n: u128)
    ensures
        final(dst)@ == old(dst)@ + spec_dec(n as int),
{
    let digits = u64_dec(n);
    let tail = chars_to_string(digits);
    dst.append(tail.as_str());
}

/// Append `$n` with an optional cast to a string.
fn append_cast_placeholder(dst: &mut String, n: u128, pg_type: &Option<String>)
    ensures
        final(dst)@ == old(dst)@ + spec_cast_placeholder(
            n as int,
            match *pg_type {
                Some(t) => Some(t@),
                None => None,
            },
        ),
{
    dst.append("$");
    append_dec(dst, n);
    match pg_type {
        Some(t) => {
            dst.append("::");
            dst.append(t.as_str());
            proof {
                assert(old(dst)@ + spec_cast_placeholder(n as int, Some(t@)) =~= dst@);
            }
        },
        None => {
            proof {
                assert(old(dst)@ + spec_cast_placeholder(n as int, None) =~= dst@);
            }
        },
    }
}

/// The projection expression of one column.
fn col_expr(c: &crate::resolved::ColumnInfo) -> (r: String)
    ensures
        r@ == spec_col_expr(c@),
{
    let mut out = quoted(c.name.as_str());
    let casts = match &c.pg_type {
        Some(t) => crate::strutil::contains_char(t.as_str(), '.') || str_eq(t.as_str(), "numeric"),
        None => false,
    };
    if casts {
        out.append("::text");
    }
    proof {
        assert(out@ =~= spec_col_expr(c@));
    }
    out
}

/// The projection list of the entity's columns.
fn select_cols(entity: &ResolvedEntity) -> (r: String)
    ensures
        r@ == spec_select_cols(entity@.columns),
{
    let n = entity.columns.len();
    let ghost exprs = Seq::new(entity@.columns.len(), |i: int| spec_col_expr(entity@.columns[i]));
    let mut out = String::new();
    let mut i: usize = 0;
    while i < n
        invariant
            i <= n,
            n == entity.columns@.len(),
            exprs == Seq::new(entity@.columns.len(), |k: int| spec_col_expr(entity@.columns[k])),
            out@ == spec_join(exprs.take(i as int), ", "@),
        decreases n - i,
    {
        if i > 0 {
            out.append(", ");
        }
        let e = col_expr(&entity.columns[i]);
        out.append(e.as_str());
        proof {
            lemma_join_snoc(exprs.take(i as int), exprs[i as int], ", "@);
            assert(exprs.take(i as int).push(exprs[i as int]) =~= exprs.take(i as int + 1));
            assert(entity@.columns[i as int] == entity.columns@[i as int]@);
        }
        i += 1;
    }
    proof {
        assert(exprs.take(n as int) =~= exprs);
    }
    out
}

/// Joining one more part appends the separator and the part.
pub(crate) proof fn lemma_join_snoc(parts: Seq<Seq<char>>, x: Seq<char>, sep: Seq<char>)
    ensures
        spec_join(parts.push(x), sep) == if parts.len() == 0 {
            x
        } else {
            spec_join(parts, sep) + sep + x
        },
    decreases parts.len(),
{
    if parts.len() == 0 {
        assert(parts.push(x)[0] == x);
        assert(parts.push(x).len() == 1);
    } else {
        lemma_join_snoc(parts.drop_first(), x, sep);
        assert(parts.push(x).drop_first() =~= parts.drop_first().push(x));
        assert(parts.push(x)[0] == parts[0]);
        if parts.len() == 1 {
            assert(spec_join(parts.push(x), sep) == parts[0] + sep + spec_join(
                parts.drop_first().push(x),
                sep,
            ));
            assert(spec_join(parts.drop_first().push(x), sep) == x);
        } else {
            assert(spec_join(parts, sep) + sep + x =~= parts[0] + sep + (spec_join(
                parts.drop_first(),
                sep,
            ) + sep + x));
        }
    }
}

/// The qualified table reference of an entity under an optional schema
/// override.
fn qualified_table(entity: &ResolvedEntity, schema_override: Option<&str>) -> (r: String)
    ensures
        r@ == spec_qualified_table(
            spec_schema_of(
                entity@,
                match schema_override {
                    Some(s) => Some(s@),
                    None => None,
                },
            ),
            entity@.table_name,
        ),
{
    let schema = match schema_override {
        Some(s) => s,
        None => entity.schema_name.as_str(),
    };
    let mut out = quoted(schema);
    out.append(".");
    let t = quoted(entity.table_name.as_str());
    out.append(t.as_str());
    proof {
        assert(out@ =~= spec_qualified_table(
            spec_schema_of(
                entity@,
                match schema_override {
                    Some(s) => Some(s@),
                    None => None,
                },
            ),
            entity@.table_name,
        ));
    }
    out
}

/// The view of an optional schema override.
pub open spec fn view_opt_str(o: Option<&str>) -> Option<Seq<char>> {
    match o {
        Some(s) => Some(s@),
        None => None,
    }
}

/// Build the select-by-id statement; the caller binds the id as `$1`.
pub fn select_by_id(entity: &ResolvedEntity, schema_override: Option<&str>) -> (q: QueryBuf)
    requires
        entity_wf(entity@),
    ensures
        q.sql@ == spec_select_by_id(entity@, view_opt_str(schema_override)),
        q.params@.len() == 0,
{
    let mut sql = String::new();
    sql.append("SELECT ");
    let cols = select_cols(entity);
    sql.append(cols.as_str());
    sql.append(" FROM ");
    let table = qualified_table(entity, schema_override);
    sql.append(table.as_str());
    sql.append(" WHERE ");
    let pk = quoted(entity.pk_columns[0].as_str());
    sql.append(pk.as_str());
    sql.append(" = $1");
    proof {
        assert(entity@.pk_columns[0] == entity.pk_columns@[0]@);
        assert(sql@ =~= spec_select_by_id(entity@, view_opt_str(schema_override)));
    }
    QueryBuf { sql, params: Vec::new() }
}

/// Find a column by name.
pub fn col_named<'a>(entity: &'a ResolvedEntity, name: &str) -> (r: Option<&'a crate::resolved::ColumnInfo>)
    ensures
        r is Some <==> spec_col_named(entity@.columns, name@) is Some,
        r is Some ==> r->0@ == spec_col_named(entity@.columns, name@)->0,
{
    let n = entity.columns.len();
    let mut i: usize = 0;
    proof {
        assert(entity@.columns =~= Seq::new(
            entity.columns@.len(),
            |k: int| entity.columns@[k]@,
        ));
        assert(entity@.columns.skip(0) =~= entity@.columns);
    }
    while i < n
        invariant
            i <= n,
            n == entity.columns@.len(),
            entity@.columns.len() == n,
            forall|k: int| 0 <= k < n ==> entity@.columns[k] == entity.columns@[k]@,
            spec_col_named(entity@.columns, name@) == spec_col_named(
                entity@.columns.skip(i as int),
                name@,
            ),
        decreases n - i,
    {
        proof {
            assert(entity@.columns.skip(i as int).drop_first() =~= entity@.columns.skip(
                i as int + 1,
            ));
            assert(entity@.columns.skip(i as int)[0] == entity@.columns[i as int]);
        }
        if str_eq(entity.columns[i].name.as_str(), name) {
            return Some(&entity.columns[i]);
        }
        i += 1;
    }
    proof {
        assert(entity@.columns.skip(n as int) =~= Seq::<ColumnModel>::empty());
    }
    None
}

/// The view of a body or filter list.
pub open spec fn view_body(b: Seq<(String, JsonValue)>) -> Seq<(Seq<char>, Json)> {
    view_json_pairs(b)
}

/// Build the list statement: filters over recognized columns become `$n`
/// conjunctions (cast when the column carries a type hint), rows are
/// ordered by primary key, the limit is clamped to 1000, the offset is
/// optional. Parameters are the kept filter values in filter order.
pub fn select_list(
    entity: &ResolvedEntity,
    filters: &BodyMap,
    limit: Option<u32>,
    offset: Option<u32>,
    schema_override: Option<&str>,
) -> (q: QueryBuf)
    requires
        entity_wf(entity@),
    ensures
        q.sql@ == spec_select_list(
            entity@,
            view_body(filters@),
            limit,
            offset,
            view_opt_str(schema_override),
        ),
        view_json_seq_of(q.params@) == spec_list_params(entity@, view_body(filters@)),
{
    let (parts, params) = filter_parts(entity, filters, "");
    let mut sql = String::new();
    sql.append("SELECT ");
    let cols = select_cols(entity);
    sql.append(cols.as_str());
    sql.append(" FROM ");
    let table = qualified_table(entity, schema_override);
    sql.append(table.as_str());
    if parts.len() > 0 {
        sql.append(" WHERE ");
        let joined = join_strings(&parts, " AND ");
        sql.append(joined.as_str());
    }
    sql.append(" ORDER BY ");
    let pk = quoted(entity.pk_columns[0].as_str());
    sql.append(pk.as_str());
    match limit {
        Some(l) => {
            sql.append(" LIMIT ");
            let clamped: u32 = if l > 1000 {
                1000
            } else {
                l
            };
            append_dec(&mut sql, clamped as u128);
        },
        None => (),
    }
    match offset {
        Some(o) => {
            sql.append(" OFFSET ");
            append_dec(&mut sql, o as u128);
        },
        None => (),
    }
    proof {
        assert(entity@.pk_columns[0] == entity.pk_columns@[0]@);
        assert(sql@ =~= spec_select_list(
            entity@,
            view_body(filters@),
            limit,
            offset,
            view_opt_str(schema_override),
        ));
    }
    QueryBuf { sql, params }
}

/// The views of a parameter vector.
pub open spec fn view_json_seq_of(v: Seq<JsonValue>) -> Seq<Json> {
    Seq::new(v.len(), |i: int| view_json(v[i]))
}

/// Join string parts with a separator.
pub(crate) fn join_strings(parts: &Vec<String>, sep: &str) -> (r: String)
    ensures
        r@ == spec_join(crate::resolved::view_strs(parts@), sep@),
{
    let ghost views = crate::resolved::view_strs(parts@);
    let n = parts.len();
    let mut out = String::new();
    let mut i: usize = 0;
    while i < n
        invariant
            i <= n,
            n == parts@.len(),
            views == crate::resolved::view_strs(parts@),
            out@ == spec_join(views.take(i as int), sep@),
        decreases n - i,
    {
        if i > 0 {
            out.append(sep);
        }
        out.append(parts[i].as_str());
        proof {
            lemma_join_snoc(views.take(i as int), views[i as int], sep@);
            assert(views.take(i as int).push(views[i as int]) =~= views.take(i as int + 1));
        }
        i += 1;
    }
    proof {
        assert(views.take(n as int) =~= views);
    }
    out
}

/// Build the filter fragments and kept parameter values; fragments name
/// the column under the given alias prefix.
fn filter_parts(entity: &ResolvedEntity, filters: &BodyMap, prefix: &str) -> (r: (
    Vec<String>,
    Vec<JsonValue>,
))
    ensures
        crate::resolved::view_strs(r.0@) == spec_filter_parts(
            entity@.columns,
            view_body(filters@),
            1,
            prefix@,
        ).0,
        view_json_seq_of(r.1@) == spec_filter_parts(
            entity@.columns,
            view_body(filters@),
            1,
            prefix@,
        ).1,
{
    let n = filters.len();
    let mut parts: Vec<String> = Vec::new();
    let mut params: Vec<JsonValue> = Vec::new();
    let mut i: usize = 0;
    proof {
        crate::json::lemma_view_json_pairs(filters@);
        assert(view_body(filters@).skip(0) =~= view_body(filters@));
        assert(crate::resolved::view_strs(parts@) =~= Seq::<Seq<char>>::empty());
        assert(view_json_seq_of(params@) =~= Seq::<Json>::empty());
        assert(Seq::<Seq<char>>::empty() + spec_filter_parts(
            entity@.columns,
            view_body(filters@),
            1,
            prefix@,
        ).0 =~= spec_filter_parts(entity@.columns, view_body(filters@), 1, prefix@).0);
        assert(Seq::<Json>::empty() + spec_filter_parts(
            entity@.columns,
            view_body(filters@),
            1,
            prefix@,
        ).1 =~= spec_filter_parts(entity@.columns, view_body(filters@), 1, prefix@).1);
    }
    while i < n
        invariant
            i <= n,
            n == filters@.len(),
            view_body(filters@).len() == n,
            forall|k: int|
                0 <= k < n ==> #[trigger] view_body(filters@)[k] == (
                    filters@[k].0@,
                    view_json(filters@[k].1),
                ),
            params@.len() <= i,
            crate::resolved::view_strs(parts@) + spec_filter_parts(
                entity@.columns,
                view_body(filters@).skip(i as int),
                params@.len() + 1int,
                prefix@,
            ).0 == spec_filter_parts(entity@.columns, view_body(filters@), 1, prefix@).0,
            view_json_seq_of(params@) + spec_filter_parts(
                entity@.columns,
                view_body(filters@).skip(i as int),
                params@.len() + 1int,
                prefix@,
            ).1 == spec_filter_parts(entity@.columns, view_body(filters@), 1, prefix@).1,
        decreases n - i,
    {
        proof {
            assert(view_body(filters@).skip(i as int).drop_first() =~= view_body(filters@).skip(
                i as int + 1,
            ));
            assert(view_body(filters@).skip(i as int)[0] == view_body(filters@)[i as int]);
        }
        let ghost prev_parts = crate::resolved::view_strs(parts@);
        let ghost prev_params = view_json_seq_of(params@);
        match col_named(entity, filters[i].0.as_str()) {
            Some(c) => {
                let mut frag = prefix.to_owned();
                let q = quoted(filters[i].0.as_str());
                frag.append(q.as_str());
                frag.append(" = ");
                append_cast_placeholder(&mut frag, (params.len() as u128) + 1, &c.pg_type);
                parts.push(frag);
                params.push(filters[i].1.deep_copy());
                proof {
                    let ghost new_frag = prefix@ + spec_quoted(filters@[i as int].0@) + " = "@
                        + spec_cast_placeholder(
                        prev_params.len() + 1int,
                        spec_col_named(entity@.columns, filters@[i as int].0@)->0.pg_type,
                    );
                    assert(crate::resolved::view_strs(parts@) =~= prev_parts.push(new_frag));
                    assert(view_json_seq_of(params@) =~= prev_params.push(
                        view_json(filters@[i as int].1),
                    ));
                    assert(prev_parts.push(new_frag) =~= prev_parts + seq![new_frag]);
                    assert(prev_params.push(view_json(filters@[i as int].1)) =~= prev_params
                        + seq![view_json(filters@[i as int].1)]);
                }
            },
            None => (),
        }
        i += 1;
    }
    proof {
        assert(view_body(filters@).skip(n as int) =~= Seq::<(Seq<char>, Json)>::empty());
        assert(crate::resolved::view_strs(parts@) + Seq::<Seq<char>>::empty()
            =~= crate::resolved::view_strs(parts@));
        assert(view_json_seq_of(params@) + Seq::<Json>::empty() =~= view_json_seq_of(params@));
    }
    (parts, params)
}

/// The cast type used when binding values against the named column.
pub open spec fn spec_col_cast(cols: Seq<ColumnModel>, name: Seq<char>) -> Option<Seq<char>> {
    match spec_col_named(cols, name) {
        Some(c) => c.pg_type,
        None => None,
    }
}

/// A batch select over a column: `WHERE <col> IN ($1, ...)`, ordered by
/// primary key; an empty value list degrades to `WHERE 1 = 0`.
pub open spec fn spec_select_by_column_in(
    e: EntityModel,
    col: Seq<char>,
    count: int,
    so: Option<Seq<char>>,
) -> Seq<char> {
    let head = "SELECT "@ + spec_select_cols(e.columns) + " FROM "@ + spec_qualified_table(
        spec_schema_of(e, so),
        e.table_name,
    );
    if count == 0 {
        head + " WHERE 1 = 0"@
    } else {
        head + " WHERE "@ + spec_quoted(col) + " IN ("@ + spec_join(
            Seq::new(count as nat, |i: int| spec_cast_placeholder(i + 1, spec_col_cast(e.columns, col))),
            ", "@,
        ) + ") ORDER BY "@ + spec_quoted(e.pk_columns[0])
    }
}

/// Build the batch select used to fetch related rows by key. The
/// parameters are the given values in order.
pub fn select_by_column_in(
    entity: &ResolvedEntity,
    column_name: &str,
    values: &Vec<JsonValue>,
    schema_override: Option<&str>,
) -> (q: QueryBuf)
    requires
        entity_wf(entity@),
    ensures
        q.sql@ == spec_select_by_column_in(
            entity@,
            column_name@,
            values@.len() as int,
            view_opt_str(schema_override),
        ),
        view_json_seq_of(q.params@) == view_json_seq_of(values@),
{
    let mut sql = String::new();
    sql.append("SELECT ");
    let cols = select_cols(entity);
    sql.append(cols.as_str());
    sql.append(" FROM ");
    let table = qualified_table(entity, schema_override);
    sql.append(table.as_str());
    if values.len() == 0 {
        sql.append(" WHERE 1 = 0");
        proof {
            assert(sql@ =~= spec_select_by_column_in(
                entity@,
                column_name@,
                0,
                view_opt_str(schema_override),
            ));
            assert(view_json_seq_of(Seq::<JsonValue>::empty()) =~= view_json_seq_of(
                Seq::<JsonValue>::empty(),
            ));
        }
        return QueryBuf { sql, params: Vec::new() };
    }
    let cast = match col_named(entity, column_name) {
        Some(c) => match &c.pg_type {
            Some(t) => Some(t.clone()),
            None => None,
        },
        None => None,
    };
    let n = values.len();
    let ghost phs = Seq::new(
        n as nat,
        |i: int| spec_cast_placeholder(i + 1, spec_col_cast(entity@.columns, column_name@)),
    );
    sql.append(" WHERE ");
    let qcol = quoted(column_name);
    sql.append(qcol.as_str());
    sql.append(" IN (");
    let mut params: Vec<JsonValue> = Vec::new();
    let mut i: usize = 0;
    let mut ph_text = String::new();
    while i < n
        invariant
            i <= n,
            n == values@.len(),
            params@.len() == i,
            forall|k: int| 0 <= k < i ==> view_json(params@[k]) == view_json(values@[k]),
            phs == Seq::new(
                n as nat,
                |k: int| spec_cast_placeholder(k + 1, spec_col_cast(entity@.columns, column_name@)),
            ),
            (match cast {
                Some(t) => Some(t@),
                None => None,
            }) == spec_col_cast(entity@.columns, column_name@),
            ph_text@ == spec_join(phs.take(i as int), ", "@),
        decreases n - i,
    {
        if i > 0 {
            ph_text.append(", ");
        }
        append_cast_placeholder(&mut ph_text, (i as u128) + 1, &cast);
        params.push(values[i].deep_copy());
        proof {
            lemma_join_snoc(phs.take(i as int), phs[i as int], ", "@);
            assert(phs.take(i as int).push(phs[i as int]) =~= phs.take(i as int + 1));
        }
        i += 1;
    }
    proof {
        assert(phs.take(n as int) =~= phs);
    }
    sql.append(ph_text.as_str());
    sql.append(") ORDER BY ");
    let pk = quoted(entity.pk_columns[0].as_str());
    sql.append(pk.as_str());
    proof {
        assert(entity@.pk_columns[0] == entity.pk_columns@[0]@);
        assert(sql@ =~= spec_select_by_column_in(
            entity@,
            column_name@,
            n as int,
            view_opt_str(schema_override),
        ));
        assert(view_json_seq_of(params@) =~= view_json_seq_of(values@));
    }
    QueryBuf { sql, params }
}

/// The value of the first body pair with the given key.
pub open spec fn spec_body_get(body: Seq<(Seq<char>, Json)>, k: Seq<char>) -> Option<Json>
    decreases body.len(),
{
    if body.len() == 0 {
        None
    } else if body[0].0 == k {
        Some(body[0].1)
    } else {
        spec_body_get(body.drop_first(), k)
    }
}

/// Find the value of the first body pair with the given key.
pub fn body_get<'a>(body: &'a BodyMap, k: &str) -> (r: Option<&'a JsonValue>)
    ensures
        r is Some <==> spec_body_get(view_body(body@), k@) is Some,
        r is Some ==> view_json(*r->0) == spec_body_get(view_body(body@), k@)->0,
{
    proof {
        crate::json::lemma_view_json_pairs(body@);
        assert(view_body(body@).skip(0) =~= view_body(body@));
    }
    let n = body.len();
    let mut i: usize = 0;
    while i < n
        invariant
            i <= n,
            n == body@.len(),
            view_body(body@).len() == n,
            forall|m: int|
                0 <= m < n ==> #[trigger] view_body(body@)[m] == (
                    body@[m].0@,
                    view_json(body@[m].1),
                ),
            spec_body_get(view_body(body@), k@) == spec_body_get(
                view_body(body@).skip(i as int),
                k@,
            ),
        decreases n - i,
    {
        proof {
            assert(view_body(body@).skip(i as int).drop_first() =~= view_body(body@).skip(
                i as int + 1,
            ));
            assert(view_body(body@).skip(i as int)[0] == view_body(body@)[i as int]);
        }
        if str_eq(body[i].0.as_str(), k) {
            return Some(&body[i].1);
        }
        i += 1;
    }
    proof {
        assert(view_body(body@).skip(n as int) =~= Seq::<(Seq<char>, Json)>::empty());
    }
    None
}

/// The column names, placeholders and values of an insert: a column is
/// skipped when it is the primary key and the body does not provide it, or
/// when it has a database default and the body omits it; otherwise its
/// value (or null) binds under a cast when the column carries a type hint.
pub open spec fn spec_insert_parts(
    cols: Seq<ColumnModel>,
    body: Seq<(Seq<char>, Json)>,
    include_pk: bool,
    n: int,
) -> (Seq<Seq<char>>, Seq<Seq<char>>, Seq<Json>)
    decreases cols.len(),
{
    if cols.len() == 0 {
        (Seq::empty(), Seq::empty(), Seq::empty())
    } else {
        let c = cols[0];
        if c.pk_type is Some && !include_pk {
            spec_insert_parts(cols.drop_first(), body, include_pk, n)
        } else {
            let val = spec_body_get(body, c.name);
            if val is None && c.has_default {
                spec_insert_parts(cols.drop_first(), body, include_pk, n)
            } else {
                let v = match val {
                    Some(v) => v,
                    None => Json::Null,
                };
                let rest = spec_insert_parts(cols.drop_first(), body, include_pk, n + 1);
                (
                    seq![spec_quoted(c.name)] + rest.0,
                    seq![spec_cast_placeholder(n, c.pg_type)] + rest.1,
                    seq![v] + rest.2,
                )
            }
        }
    }
}

/// An insert statement, with the tenant column appended under row-level
/// security.
pub open spec fn spec_insert(
    e: EntityModel,
    body: Seq<(Seq<char>, Json)>,
    include_pk: bool,
    so: Option<Seq<char>>,
    rls_tenant: Option<Seq<char>>,
) -> Seq<char> {
    let p = spec_insert_parts(e.columns, body, include_pk, 1);
    let names = match rls_tenant {
        Some(_) => p.0.push(spec_quoted("tenant_id"@)),
        None => p.0,
    };
    let phs = match rls_tenant {
        Some(_) => p.1.push(spec_placeholder(p.2.len() + 1int)),
        None => p.1,
    };
    let returning = match rls_tenant {
        Some(_) => spec_select_cols(e.columns) + ", "@ + spec_quoted("tenant_id"@),
        None => spec_select_cols(e.columns),
    };
    "INSERT INTO "@ + spec_qualified_table(spec_schema_of(e, so), e.table_name) + " ("@
        + spec_join(names, ", "@) + ") VALUES ("@ + spec_join(phs, ", "@) + ") RETURNING "@
        + returning
}

/// The parameters of an insert: the bound column values, then the tenant
/// id under row-level security.
pub open spec fn spec_insert_params(
    e: EntityModel,
    body: Seq<(Seq<char>, Json)>,
    include_pk: bool,
    rls_tenant: Option<Seq<char>>,
) -> Seq<Json> {
    let p = spec_insert_parts(e.columns, body, include_pk, 1);
    match rls_tenant {
        Some(t) => p.2.push(Json::Str(t)),
        None => p.2,
    }
}

/// Build an insert from the body: columns present in the body plus the
/// primary key if the body provides it; a column with a database default
/// that the body omits is left out so the default takes effect; under
/// row-level security the tenant column and value are appended. Returns
/// all entity columns.
pub fn insert(
    entity: &ResolvedEntity,
    body: &BodyMap,
    include_pk: bool,
    schema_override: Option<&str>,
    rls_tenant_id: Option<&str>,
) -> (q: QueryBuf)
    requires
        entity_wf(entity@),
    ensures
        q.sql@ == spec_insert(
            entity@,
            view_body(body@),
            include_pk,
            view_opt_str(schema_override),
            view_opt_str(rls_tenant_id),
        ),
        view_json_seq_of(q.params@) == spec_insert_params(
            entity@,
            view_body(body@),
            include_pk,
            view_opt_str(rls_tenant_id),
        ),
{
    let ncols = entity.columns.len();
    let mut names: Vec<String> = Vec::new();
    let mut phs: Vec<String> = Vec::new();
    let mut params: Vec<JsonValue> = Vec::new();
    let mut i: usize = 0;
    proof {
        assert(entity@.columns =~= Seq::new(entity.columns@.len(), |k: int| entity.columns@[k]@));
        assert(entity@.columns.skip(0) =~= entity@.columns);
        assert(crate::resolved::view_strs(names@) =~= Seq::<Seq<char>>::empty());
        assert(crate::resolved::view_strs(phs@) =~= Seq::<Seq<char>>::empty());
        assert(view_json_seq_of(params@) =~= Seq::<Json>::empty());
        assert(Seq::<Seq<char>>::empty() + spec_insert_parts(
            entity@.columns,
            view_body(body@),
            include_pk,
            1,
        ).0 =~= spec_insert_parts(entity@.columns, view_body(body@), include_pk, 1).0);
        assert(Seq::<Seq<char>>::empty() + spec_insert_parts(
            entity@.columns,
            view_body(body@),
            include_pk,
            1,
        ).1 =~= spec_insert_parts(entity@.columns, view_body(body@), include_pk, 1).1);
        assert(Seq::<Json>::empty() + spec_insert_parts(
            entity@.columns,
            view_body(body@),
            include_pk,
            1,
        ).2 =~= spec_insert_parts(entity@.columns, view_body(body@), include_pk, 1).2);
    }
    while i < ncols
        invariant
            i <= ncols,
            ncols == entity.columns@.len(),
            entity@.columns.len() == ncols,
            forall|k: int| 0 <= k < ncols ==> entity@.columns[k] == entity.columns@[k]@,
            params@.len() <= i,
            crate::resolved::view_strs(names@) + spec_insert_parts(
                entity@.columns.skip(i as int),
                view_body(body@),
                include_pk,
                params@.len() + 1int,
            ).0 == spec_insert_parts(entity@.columns, view_body(body@), include_pk, 1).0,
            crate::resolved::view_strs(phs@) + spec_insert_parts(
                entity@.columns.skip(i as int),
                view_body(body@),
                include_pk,
                params@.len() + 1int,
            ).1 == spec_insert_parts(entity@.columns, view_body(body@), include_pk, 1).1,
            view_json_seq_of(params@) + spec_insert_parts(
                entity@.columns.skip(i as int),
                view_body(body@),
                include_pk,
                params@.len() + 1int,
            ).2 == spec_insert_parts(entity@.columns, view_body(body@), include_pk, 1).2,
        decreases ncols - i,
    {
        proof {
            assert(entity@.columns.skip(i as int).drop_first() =~= entity@.columns.skip(
                i as int + 1,
            ));
            assert(entity@.columns.skip(i as int)[0] == entity@.columns[i as int]);
        }
        let ghost prev_names = crate::resolved::view_strs(names@);
        let ghost prev_phs = crate::resolved::view_strs(phs@);
        let ghost prev_params = view_json_seq_of(params@);
        let c = &entity.columns[i];
        let skip_pk = c.pk_type.is_some() && !include_pk;
        if !skip_pk {
            let val = body_get(body, c.name.as_str());
            let absent = val.is_none();
            if !(absent && c.has_default) {
                let bound: JsonValue = match val {
                    Some(v) => v.deep_copy(),
                    None => JsonValue::Null,
                };
                names.push(quoted(c.name.as_str()));
                let mut ph = String::new();
                append_cast_placeholder(&mut ph, (params.len() as u128) + 1, &c.pg_type);
                phs.push(ph);
                params.push(bound);
                proof {
                    let ghost cm = entity@.columns[i as int];
                    let ghost v = match spec_body_get(view_body(body@), cm.name) {
                        Some(v) => v,
                        None => Json::Null,
                    };
                    assert(crate::resolved::view_strs(names@) =~= prev_names.push(
                        spec_quoted(cm.name),
                    ));
                    assert(crate::resolved::view_strs(phs@) =~= prev_phs.push(
                        spec_cast_placeholder(prev_params.len() + 1int, cm.pg_type),
                    ));
                    assert(view_json_seq_of(params@) =~= prev_params.push(v));
                    assert(prev_names.push(spec_quoted(cm.name)) =~= prev_names + seq![
                        spec_quoted(cm.name),
                    ]);
                    assert(prev_phs.push(
                        spec_cast_placeholder(prev_params.len() + 1int, cm.pg_type),
                    ) =~= prev_phs + seq![
                        spec_cast_placeholder(prev_params.len() + 1int, cm.pg_type),
                    ]);
                    assert(prev_params.push(v) =~= prev_params + seq![v]);
                }
            }
        }
        i += 1;
    }
    proof {
        assert(entity@.columns.skip(ncols as int) =~= Seq::<ColumnModel>::empty());
        assert(crate::resolved::view_strs(names@) + Seq::<Seq<char>>::empty()
            =~= crate::resolved::view_strs(names@));
        assert(crate::resolved::view_strs(phs@) + Seq::<Seq<char>>::empty()
            =~= crate::resolved::view_strs(phs@));
        assert(view_json_seq_of(params@) + Seq::<Json>::empty() =~= view_json_seq_of(params@));
    }
    let ghost base_count = params@.len();
    match rls_tenant_id {
        Some(tid) => {
            let ghost prev_names = crate::resolved::view_strs(names@);
            let ghost prev_phs = crate::resolved::view_strs(phs@);
            let ghost prev_params = view_json_seq_of(params@);
            names.push(quoted("tenant_id"));
            let mut ph = String::new();
            let none_cast: Option<String> = None;
            append_cast_placeholder(&mut ph, (params.len() as u128) + 1, &none_cast);
            phs.push(ph);
            params.push(JsonValue::Str(tid.to_owned()));
            proof {
                assert(crate::resolved::view_strs(names@) =~= prev_names.push(
                    spec_quoted("tenant_id"@),
                ));
                assert(crate::resolved::view_strs(phs@) =~= prev_phs.push(
                    spec_placeholder(prev_params.len() + 1int),
                ));
                assert(view_json_seq_of(params@) =~= prev_params.push(Json::Str(tid@)));
            }
        },
        None => (),
    }
    let mut sql = String::new();
    sql.append("INSERT INTO ");
    let table = qualified_table(entity, schema_override);
    sql.append(table.as_str());
    sql.append(" (");
    let names_joined = join_strings(&names, ", ");
    sql.append(names_joined.as_str());
    sql.append(") VALUES (");
    let phs_joined = join_strings(&phs, ", ");
    sql.append(phs_joined.as_str());
    sql.append(") RETURNING ");
    let cols = select_cols(entity);
    sql.append(cols.as_str());
    match rls_tenant_id {
        Some(_) => {
            sql.append(", ");
            let qt = quoted("tenant_id");
            sql.append(qt.as_str());
        },
        None => (),
    }
    proof {
        assert(sql@ =~= spec_insert(
            entity@,
            view_body(body@),
            include_pk,
            view_opt_str(schema_override),
            view_opt_str(rls_tenant_id),
        ));
        assert(view_json_seq_of(params@) =~= spec_insert_params(
            entity@,
            view_body(body@),
            include_pk,
            view_opt_str(rls_tenant_id),
        ));
    }
    QueryBuf { sql, params }
}

/// One related-entity attachment of a single-query list: the attachment
/// name, its direction, the related entity, and the two join columns.
pub struct IncludeSelect<'a> {
    pub name: &'a str,
    pub direction: crate::resolved::IncludeDirection,
    pub related: &'a ResolvedEntity,
    pub our_key: &'a str,
    pub their_key: &'a str,
}

#[verifier::ext_equal]
pub ghost struct IncludeSelectModel {
    pub name: Seq<char>,
    pub direction: crate::resolved::IncludeDirection,
    pub related: EntityModel,
    pub our_key: Seq<char>,
    pub their_key: Seq<char>,
}

impl<'a> View for IncludeSelect<'a> {
    type V = IncludeSelectModel;

    open spec fn view(&self) -> IncludeSelectModel {
        IncludeSelectModel {
            name: self.name@,
            direction: self.direction,
            related: self.related@,
            our_key: self.our_key@,
            their_key: self.their_key@,
        }
    }
}

/// One aliased projection of the main table: the column, cast to text
/// where required, under its own name.
pub open spec fn spec_main_col_expr(c: ColumnModel) -> Seq<char> {
    (if spec_casts_text(c) {
        "main."@ + spec_quoted(c.name) + "::text"@
    } else {
        "main."@ + spec_quoted(c.name)
    }) + " AS "@ + spec_quoted(c.name)
}

/// The correlated subquery of one attachment: `row_to_json` of the single
/// related row for to-one, a `COALESCE`d `json_agg` for to-many, joined on
/// the attachment's columns, under the attachment name.
pub open spec fn spec_include_part(inc: IncludeSelectModel, so: Option<Seq<char>>) -> Seq<char> {
    let sub_from = spec_qualified_table(spec_schema_of(inc.related, so), inc.related.table_name)
        + " WHERE "@ + spec_quoted(inc.their_key) + " = main."@ + spec_quoted(inc.our_key);
    let subquery = match inc.direction {
        crate::resolved::IncludeDirection::ToOne => "(SELECT row_to_json(sub) FROM (SELECT "@
            + spec_select_cols(inc.related.columns) + " FROM "@ + sub_from + ") sub)"@,
        crate::resolved::IncludeDirection::ToMany =>
            "(SELECT COALESCE(json_agg(row_to_json(sub)), '[]'::json) FROM (SELECT "@
            + spec_select_cols(inc.related.columns) + " FROM "@ + sub_from + ") sub)"@,
    };
    subquery + " AS "@ + spec_quoted(inc.name)
}

/// A list statement with its attachments inlined: the main table aliased,
/// each attachment a correlated scalar subquery, filters under the alias,
/// ordered by the main key, the limit clamped to 1000.
pub open spec fn spec_select_list_with_includes(
    e: EntityModel,
    fs: Seq<(Seq<char>, Json)>,
    limit: Option<u32>,
    offset: Option<u32>,
    incs: Seq<IncludeSelectModel>,
    so: Option<Seq<char>>,
) -> Seq<char> {
    let main_cols = Seq::new(e.columns.len(), |i: int| spec_main_col_expr(e.columns[i]));
    let inc_parts = Seq::new(incs.len(), |i: int| spec_include_part(incs[i], so));
    let parts = spec_filter_parts(e.columns, fs, 1, "main."@).0;
    let where_clause = if parts.len() == 0 {
        Seq::<char>::empty()
    } else {
        " WHERE "@ + spec_join(parts, " AND "@)
    };
    let order_clause = " ORDER BY main."@ + spec_quoted(e.pk_columns[0]);
    let limit_clause = match limit {
        Some(l) => " LIMIT "@ + spec_dec(spec_clamp_limit(l)),
        None => Seq::<char>::empty(),
    };
    let offset_clause = match offset {
        Some(o) => " OFFSET "@ + spec_dec(o as int),
        None => Seq::<char>::empty(),
    };
    "SELECT "@ + spec_join(main_cols + inc_parts, ", "@) + " FROM "@ + spec_qualified_table(
        spec_schema_of(e, so),
        e.table_name,
    ) + " main"@ + where_clause + order_clause + limit_clause + offset_clause
}

/// Build the single-query list: every attachment becomes a correlated
/// scalar subquery, so one round trip returns the rows with their raw
/// attachment columns. Parameters are the kept filter values.
#[verifier::rlimit(80)]
#[verifier::loop_isolation(false)]
pub fn select_list_with_includes(
    entity: &ResolvedEntity,
    filters: &BodyMap,
    limit: Option<u32>,
    offset: Option<u32>,
    incs: &Vec<IncludeSelect<'_>>,
    schema_override: Option<&str>,
) -> (q: QueryBuf)
    requires
        entity_wf(entity@),
    ensures
        q.sql@ == spec_select_list_with_includes(
            entity@,
            view_body(filters@),
            limit,
            offset,
            Seq::new(incs@.len(), |i: int| incs@[i]@),
            view_opt_str(schema_override),
        ),
        view_json_seq_of(q.params@) == spec_filter_parts(
            entity@.columns,
            view_body(filters@),
            1,
            "main."@,
        ).1,
{
    let ghost main_cols = Seq::new(
        entity@.columns.len(),
        |i: int| spec_main_col_expr(entity@.columns[i]),
    );
    let ghost inc_models = Seq::new(incs@.len(), |i: int| incs@[i]@);
    let ghost inc_parts = Seq::new(
        inc_models.len(),
        |i: int| spec_include_part(inc_models[i], view_opt_str(schema_override)),
    );
    let (parts, params) = filter_parts(entity, filters, "main.");

    // The projection: aliased main columns, then one subquery per
    // attachment.
    let mut select_parts: Vec<String> = Vec::new();
    let nc = entity.columns.len();
    let mut i: usize = 0;
    while i < nc
        invariant
            i <= nc,
            nc == entity.columns@.len(),
            select_parts@.len() == i,
            forall|j: int| 0 <= j < i ==> (#[trigger] select_parts@[j])@ == main_cols[j],
        decreases nc - i,
    {
        let c = &entity.columns[i];
        let q = quoted(c.name.as_str());
        let mut part = "main.".to_owned();
        part.append(q.as_str());
        let casts = match &c.pg_type {
            Some(t) => crate::strutil::contains_char(t.as_str(), '.') || str_eq(
                t.as_str(),
                "numeric",
            ),
            None => false,
        };
        if casts {
            part.append("::text");
        }
        part.append(" AS ");
        part.append(q.as_str());
        proof {
            assert(entity@.columns[i as int] == entity.columns@[i as int]@);
            assert(part@ =~= spec_main_col_expr(entity@.columns[i as int]));
        }
        select_parts.push(part);
        i += 1;
    }
    let ni = incs.len();
    let mut i: usize = 0;
    while i < ni
        invariant
            i <= ni,
            ni == incs@.len(),
            select_parts@.len() == nc + i,
            nc == entity.columns@.len(),
            forall|j: int| 0 <= j < nc ==> (#[trigger] select_parts@[j])@ == main_cols[j],
            forall|j: int| 0 <= j < i ==> (#[trigger] select_parts@[nc + j])@ == inc_parts[j],
        decreases ni - i,
    {
        let inc = &incs[i];
        let mut sub_from = qualified_table(inc.related, schema_override);
        sub_from.append(" WHERE ");
        let qt = quoted(inc.their_key);
        sub_from.append(qt.as_str());
        sub_from.append(" = main.");
        let qo = quoted(inc.our_key);
        sub_from.append(qo.as_str());
        let rel_cols = select_cols(inc.related);
        let mut part = String::new();
        match inc.direction {
            crate::resolved::IncludeDirection::ToOne => {
                part.append("(SELECT row_to_json(sub) FROM (SELECT ");
            },
            crate::resolved::IncludeDirection::ToMany => {
                part.append("(SELECT COALESCE(json_agg(row_to_json(sub)), '[]'::json) FROM (SELECT ");
            },
        }
        part.append(rel_cols.as_str());
        part.append(" FROM ");
        part.append(sub_from.as_str());
        part.append(") sub)");
        part.append(" AS ");
        let qn = quoted(inc.name);
        part.append(qn.as_str());
        proof {
            assert(inc_models[i as int] == incs@[i as int]@);
            assert(part@ =~= spec_include_part(inc_models[i as int], view_opt_str(schema_override)));
        }
        select_parts.push(part);
        i += 1;
    }
    proof {
        assert forall|k: int|
            0 <= k < select_parts@.len() implies (#[trigger] select_parts@[k])@ == (main_cols
            + inc_parts)[k] by {
            if k >= nc {
                assert(select_parts@[nc + (k - nc)]@ == inc_parts[k - nc]);
            }
        }
        assert(crate::resolved::view_strs(select_parts@) =~= main_cols + inc_parts);
    }

    let mut sql = String::new();
    sql.append("SELECT ");
    let projection = join_strings(&select_parts, ", ");
    sql.append(projection.as_str());
    sql.append(" FROM ");
    let table = qualified_table(entity, schema_override);
    sql.append(table.as_str());
    sql.append(" main");
    if parts.len() > 0 {
        sql.append(" WHERE ");
        let joined = join_strings(&parts, " AND ");
        sql.append(joined.as_str());
    }
    sql.append(" ORDER BY main.");
    let pk = quoted(entity.pk_columns[0].as_str());
    sql.append(pk.as_str());
    match limit {
        Some(l) => {
            sql.append(" LIMIT ");
            let clamped: u32 = if l > 1000 {
                1000
            } else {
                l
            };
            append_dec(&mut sql, clamped as u128);
        },
        None => (),
    }
    match offset {
        Some(o) => {
            sql.append(" OFFSET ");
            append_dec(&mut sql, o as u128);
        },
        None => (),
    }
    proof {
        assert(entity@.pk_columns[0] == entity.pk_columns@[0]@);
        assert(sql@ =~= spec_select_list_with_includes(
            entity@,
            view_body(filters@),
            limit,
            offset,
            inc_models,
            view_opt_str(schema_override),
        ));
    }
    QueryBuf { sql, params }
}

/// The assignment fragments and values of an update: a body key is kept
/// when it names an entity column other than the primary key and the
/// tenant column.
pub open spec fn spec_update_parts(
    cols: Seq<ColumnModel>,
    pk: Seq<char>,
    body: Seq<(Seq<char>, Json)>,
    n: int,
) -> (Seq<Seq<char>>, Seq<Json>)
    decreases body.len(),
{
    if body.len() == 0 {
        (Seq::empty(), Seq::empty())
    } else {
        let k = body[0].0;
        if k == pk || k == "tenant_id"@ || spec_col_named(cols, k) is None {
            spec_update_parts(cols, pk, body.drop_first(), n)
        } else {
            let frag = spec_quoted(k) + " = "@ + spec_cast_placeholder(
                n,
                spec_col_named(cols, k)->0.pg_type,
            );
            let rest = spec_update_parts(cols, pk, body.drop_first(), n + 1);
            (seq![frag] + rest.0, seq![body[0].1] + rest.1)
        }
    }
}

/// An update statement: assignments for the body keys that name entity
/// columns, then `updated_at = NOW()`, keyed by primary key, returning all
/// entity columns. A body with no recognized key degrades to a select of
/// the row.
pub open spec fn spec_update(
    e: EntityModel,
    body: Seq<(Seq<char>, Json)>,
    so: Option<Seq<char>>,
) -> Seq<char> {
    let p = spec_update_parts(e.columns, e.pk_columns[0], body, 1);
    if p.0.len() == 0 {
        spec_select_by_id(e, so)
    } else {
        let sets = p.0.push(spec_quoted("updated_at"@) + " = NOW()"@);
        "UPDATE "@ + spec_qualified_table(spec_schema_of(e, so), e.table_name) + " SET "@
            + spec_join(sets, ", "@) + " WHERE "@ + spec_quoted(e.pk_columns[0]) + " = "@
            + spec_placeholder(p.1.len() + 1int) + " RETURNING "@ + spec_select_cols(e.columns)
    }
}

/// The parameters of an update: the kept body values, then the row id.
pub open spec fn spec_update_params(
    e: EntityModel,
    id: Json,
    body: Seq<(Seq<char>, Json)>,
) -> Seq<Json> {
    spec_update_parts(e.columns, e.pk_columns[0], body, 1).1.push(id)
}

/// Both sides of the update fragments stay aligned.
proof fn lemma_update_parts_len(
    cols: Seq<ColumnModel>,
    pk: Seq<char>,
    body: Seq<(Seq<char>, Json)>,
    n: int,
)
    ensures
        spec_update_parts(cols, pk, body, n).0.len() == spec_update_parts(cols, pk, body, n).1.len(),
    decreases body.len(),
{
    if body.len() > 0 {
        lemma_update_parts_len(cols, pk, body.drop_first(), n);
        lemma_update_parts_len(cols, pk, body.drop_first(), n + 1);
    }
}

/// Build an update by id: `SET` only for body keys that exist among the
/// entity's columns, excluding the primary key and the tenant column, with
/// `updated_at` refreshed; an empty assignment list degrades to a select
/// of the row. The id binds as the last parameter.
#[verifier::loop_isolation(false)]
pub fn update(
    entity: &ResolvedEntity,
    id: &JsonValue,
    body: &BodyMap,
    schema_override: Option<&str>,
) -> (q: QueryBuf)
    requires
        entity_wf(entity@),
    ensures
        q.sql@ == spec_update(entity@, view_body(body@), view_opt_str(schema_override)),
        view_json_seq_of(q.params@) == spec_update_params(
            entity@,
            view_json(*id),
            view_body(body@),
        ),
{
    let pk = entity.pk_columns[0].as_str();
    let nbody = body.len();
    let mut sets: Vec<String> = Vec::new();
    let mut params: Vec<JsonValue> = Vec::new();
    let mut i: usize = 0;
    proof {
        crate::json::lemma_view_json_pairs(body@);
        assert(entity@.pk_columns[0] == entity.pk_columns@[0]@);
        assert(view_body(body@).skip(0) =~= view_body(body@));
        assert(crate::resolved::view_strs(sets@) =~= Seq::<Seq<char>>::empty());
        assert(view_json_seq_of(params@) =~= Seq::<Json>::empty());
        assert(Seq::<Seq<char>>::empty() + spec_update_parts(
            entity@.columns,
            entity@.pk_columns[0],
            view_body(body@),
            1,
        ).0 =~= spec_update_parts(entity@.columns, entity@.pk_columns[0], view_body(body@), 1).0);
        assert(Seq::<Json>::empty() + spec_update_parts(
            entity@.columns,
            entity@.pk_columns[0],
            view_body(body@),
            1,
        ).1 =~= spec_update_parts(entity@.columns, entity@.pk_columns[0], view_body(body@), 1).1);
    }
    while i < nbody
        invariant
            i <= nbody,
            nbody == body@.len(),
            view_body(body@).len() == nbody,
            forall|m: int|
                0 <= m < nbody ==> #[trigger] view_body(body@)[m] == (
                    body@[m].0@,
                    view_json(body@[m].1),
                ),
            pk@ == entity@.pk_columns[0],
            params@.len() <= i,
            crate::resolved::view_strs(sets@) + spec_update_parts(
                entity@.columns,
                entity@.pk_columns[0],
                view_body(body@).skip(i as int),
                params@.len() + 1int,
            ).0 == spec_update_parts(entity@.columns, entity@.pk_columns[0], view_body(body@), 1).0,
            view_json_seq_of(params@) + spec_update_parts(
                entity@.columns,
                entity@.pk_columns[0],
                view_body(body@).skip(i as int),
                params@.len() + 1int,
            ).1 == spec_update_parts(entity@.columns, entity@.pk_columns[0], view_body(body@), 1).1,
        decreases nbody - i,
    {
        proof {
            assert(view_body(body@).skip(i as int).drop_first() =~= view_body(body@).skip(
                i as int + 1,
            ));
            assert(view_body(body@).skip(i as int)[0] == view_body(body@)[i as int]);
        }
        let ghost prev_sets = crate::resolved::view_strs(sets@);
        let ghost prev_params = view_json_seq_of(params@);
        let key = body[i].0.as_str();
        if !str_eq(key, pk) && !str_eq(key, "tenant_id") {
            match col_named(entity, key) {
                Some(c) => {
                    let mut frag = quoted(key);
                    frag.append(" = ");
                    append_cast_placeholder(&mut frag, (params.len() as u128) + 1, &c.pg_type);
                    sets.push(frag);
                    params.push(body[i].1.deep_copy());
                    proof {
                        let ghost new_frag = spec_quoted(body@[i as int].0@) + " = "@
                            + spec_cast_placeholder(
                            prev_params.len() + 1int,
                            spec_col_named(entity@.columns, body@[i as int].0@)->0.pg_type,
                        );
                        assert(crate::resolved::view_strs(sets@) =~= prev_sets.push(new_frag));
                        assert(view_json_seq_of(params@) =~= prev_params.push(
                            view_json(body@[i as int].1),
                        ));
                        assert(prev_sets.push(new_frag) =~= prev_sets + seq![new_frag]);
                        assert(prev_params.push(view_json(body@[i as int].1)) =~= prev_params
                            + seq![view_json(body@[i as int].1)]);
                    }
                },
                None => (),
            }
        }
        i += 1;
    }
    proof {
        assert(view_body(body@).skip(nbody as int) =~= Seq::<(Seq<char>, Json)>::empty());
        assert(crate::resolved::view_strs(sets@) + Seq::<Seq<char>>::empty()
            =~= crate::resolved::view_strs(sets@));
        assert(view_json_seq_of(params@) + Seq::<Json>::empty() =~= view_json_seq_of(params@));
    }
    if sets.len() == 0 {
        let q0 = select_by_id(entity, schema_override);
        let mut params: Vec<JsonValue> = Vec::new();
        params.push(id.deep_copy());
        proof {
            lemma_update_parts_len(entity@.columns, entity@.pk_columns[0], view_body(body@), 1);
            assert(view_json_seq_of(params@) =~= spec_update_params(
                entity@,
                view_json(*id),
                view_body(body@),
            ));
        }
        return QueryBuf { sql: q0.sql, params };
    }
    let ghost kept = spec_update_parts(
        entity@.columns,
        entity@.pk_columns[0],
        view_body(body@),
        1,
    );
    let mut upd = quoted("updated_at");
    upd.append(" = NOW()");
    sets.push(upd);
    proof {
        assert(crate::resolved::view_strs(sets@) =~= kept.0.push(
            spec_quoted("updated_at"@) + " = NOW()"@,
        ));
    }
    let mut sql = String::new();
    sql.append("UPDATE ");
    let table = qualified_table(entity, schema_override);
    sql.append(table.as_str());
    sql.append(" SET ");
    let joined = join_strings(&sets, ", ");
    sql.append(joined.as_str());
    sql.append(" WHERE ");
    let qpk = quoted(pk);
    sql.append(qpk.as_str());
    sql.append(" = ");
    let id_num = (params.len() as u128) + 1;
    sql.append("$");
    append_dec(&mut sql, id_num);
    sql.append(" RETURNING ");
    let cols = select_cols(entity);
    sql.append(cols.as_str());
    params.push(id.deep_copy());
    proof {
        assert(sql@ =~= spec_update(entity@, view_body(body@), view_opt_str(schema_override)));
        assert(view_json_seq_of(params@) =~= spec_update_params(
            entity@,
            view_json(*id),
            view_body(body@),
        ));
    }
    QueryBuf { sql, params }
}

/// A delete by primary key, returning all entity columns.
pub open spec fn spec_delete(e: EntityModel, so: Option<Seq<char>>) -> Seq<char> {
    "DELETE FROM "@ + spec_qualified_table(spec_schema_of(e, so), e.table_name) + " WHERE "@
        + spec_quoted(e.pk_columns[0]) + " = $1 RETURNING "@ + spec_select_cols(e.columns)
}

/// Build a delete by id; the caller binds the id as `$1`.
pub fn delete(entity: &ResolvedEntity, schema_override: Option<&str>) -> (q: QueryBuf)
    requires
        entity_wf(entity@),
    ensures
        q.sql@ == spec_delete(entity@, view_opt_str(schema_override)),
        q.params@.len() == 0,
{
    let mut sql = String::new();
    sql.append("DELETE FROM ");
    let table = qualified_table(entity, schema_override);
    sql.append(table.as_str());
    sql.append(" WHERE ");
    let pk = quoted(entity.pk_columns[0].as_str());
    sql.append(pk.as_str());
    sql.append(" = $1 RETURNING ");
    let cols = select_cols(entity);
    sql.append(cols.as_str());
    proof {
        assert(entity@.pk_columns[0] == entity.pk_columns@[0]@);
        assert(sql@ =~= spec_delete(entity@, view_opt_str(schema_override)));
    }
    QueryBuf { sql, params: Vec::new() }
}

} // verus!
