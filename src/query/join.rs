use vstd::prelude::*;
use vstd::string::*;
use crate::query::select::{alias_ok, alias_sql, select_ok, select_sql, Select};
use crate::query::where_clause::{where_ok, where_sql, Where};
use crate::to_sql::{Dialect, SqlError};
use crate::util::{all_quotable, push_quoted, push_quoted_sequence, push_table_name, quoted_list, str_to_string, table_ref, table_ref_ok};

verus! {

/// What a JOIN reads: a nested SELECT or a table.
#[derive(Debug, PartialEq, Eq)]
pub enum JoinTable {
    Select(Select),
    Table { schema: Option<String>, table: String },
}

#[derive(Copy, Clone, Debug, PartialEq, Eq, Structural)]
pub enum JoinType {
    Inner,
    Left,
    Right,
    Full,
}

/// How joined rows are matched: an ON condition or a USING column list.
#[derive(Debug, PartialEq, Eq)]
pub enum Criteria {
    On(Where),
    Using(Vec<String>),
}

/// A JOIN clause.
#[derive(Debug, PartialEq, Eq)]
pub struct Join {
    pub typ: JoinType,
    pub table: JoinTable,
    pub alias: Option<String>,
    pub criteria: Criteria,
}

pub open spec fn join_type_sql(t: JoinType) -> Seq<char> {
    match t {
        JoinType::Inner => "JOIN "@,
        JoinType::Left => "LEFT JOIN "@,
        JoinType::Right => "RIGHT JOIN "@,
        JoinType::Full => "FULL JOIN "@,
    }
}

pub open spec fn criteria_sql(c: Criteria) -> Seq<char> {
    match c {
        Criteria::On(w) => " ON "@ + where_sql(w),
        Criteria::Using(cols) => " USING ("@ + quoted_list(cols@, ", "@) + ")"@,
    }
}

pub open spec fn criteria_ok(c: Criteria) -> bool {
    match c {
        Criteria::On(w) => where_ok(w),
        Criteria::Using(cols) => all_quotable(cols@),
    }
}

pub open spec fn join_table_sql(t: JoinTable, d: Dialect) -> Seq<char>
    decreases t,
{
    match t {
        JoinTable::Select(s) => "("@ + select_sql(s, d) + ")"@,
        JoinTable::Table { schema, table } => table_ref(schema, table@),
    }
}

pub open spec fn join_table_ok(t: JoinTable, d: Dialect) -> bool
    decreases t,
{
    match t {
        JoinTable::Select(s) => select_ok(s, d),
        JoinTable::Table { schema, table } => table_ref_ok(schema, table@),
    }
}

pub open spec fn join_sql(j: Join, d: Dialect) -> Seq<char>
    decreases j,
{
    join_type_sql(j.typ) + join_table_sql(j.table, d) + alias_sql(j.alias) + criteria_sql(j.criteria)
}

pub open spec fn join_ok(j: Join, d: Dialect) -> bool
    decreases j,
{
    join_table_ok(j.table, d) && alias_ok(j.alias) && criteria_ok(j.criteria)
}

/// JOIN clauses joined by a space.
pub open spec fn joins_sql(v: Seq<Join>, d: Dialect) -> Seq<char>
    decreases v,
{
    if v.len() == 0 {
        Seq::empty()
    } else if v.len() == 1 {
        join_sql(v[0], d)
    } else {
        joins_sql(v.subrange(0, v.len() - 1), d) + " "@ + join_sql(v[v.len() - 1], d)
    }
}

pub open spec fn joins_ok(v: Seq<Join>, d: Dialect) -> bool
    decreases v,
{
    if v.len() == 0 {
        true
    } else {
        joins_ok(v.subrange(0, v.len() - 1), d) && join_ok(v[v.len() - 1], d)
    }
}

/// A failing prefix makes the whole sequence fail.
pub proof fn lemma_joins_ok_prefix(v: Seq<Join>, d: Dialect, n: int)
    requires
        0 <= n <= v.len(),
        joins_ok(v, d),
    ensures
        joins_ok(v.take(n), d),
    decreases v.len() - n,
{
    if n < v.len() {
        lemma_joins_ok_prefix(v, d, n + 1);
        assert(v.take(n + 1).subrange(0, n) =~= v.take(n));
    } else {
        assert(v.take(n) =~= v);
    }
}

#[verifier::spinoff_prover]
pub fn write_joins(v: &Vec<Join>, buf: &mut String, dialect: Dialect) -> (r: Result<(), SqlError>)
    ensures
        r is Ok <==> joins_ok(v@, dialect),
        r is Ok ==> final(buf)@ == old(buf)@ + joins_sql(v@, dialect),
    decreases v,
{
    proof { reveal_strlit(" "); }
    let mut i: usize = 0;
    while i < v.len()
        invariant
            i <= v.len(),
            joins_ok(v@.take(i as int), dialect),
            buf@ == old(buf)@ + joins_sql(v@.take(i as int), dialect),
        decreases v.len() - i,
    {
        proof {
            assert(v@.take(i as int + 1).subrange(0, i as int) =~= v@.take(i as int));
            assert(v@.take(i as int + 1)[i as int] == v@[i as int]);
        }
        if i > 0 {
            buf.append(" ");
        }
        let res = v[i].write_sql(buf, dialect);
        if res.is_err() {
            proof { if joins_ok(v@, dialect) { lemma_joins_ok_prefix(v@, dialect, i as int + 1); } }
            return res;
        }
        proof { assert(buf@ =~= old(buf)@ + joins_sql(v@.take(i as int + 1), dialect)); }
        i += 1;
    }
    proof { assert(v@.take(i as int) =~= v@); }
    Ok(())
}

impl Criteria {
    #[verifier::spinoff_prover]
    pub fn write_sql(&self, buf: &mut String, dialect: Dialect) -> (r: Result<(), SqlError>)
        ensures
            r is Ok <==> criteria_ok(*self),
            r is Ok ==> final(buf)@ == old(buf)@ + criteria_sql(*self),
    {
        proof { reveal_strlit(" ON "); reveal_strlit(" USING ("); reveal_strlit(")"); reveal_strlit(", "); }
        match self {
            Criteria::On(w) => {
                buf.append(" ON ");
                let res = w.write_sql(buf, dialect);
                assert(res is Ok ==> final(buf)@ =~= old(buf)@ + criteria_sql(*self));
                res
            },
            Criteria::Using(columns) => {
                buf.append(" USING (");
                push_quoted_sequence(buf, columns, ", ")?;
                buf.append(")");
                assert(final(buf)@ =~= old(buf)@ + criteria_sql(*self));
                Ok(())
            },
        }
    }
}

impl Default for JoinType {
    fn default() -> (r: Self)
        ensures
            r == JoinType::Inner,
    {
        JoinType::Inner
    }
}

impl JoinTable {
    #[verifier::spinoff_prover]
    pub fn write_sql(&self, buf: &mut String, dialect: Dialect) -> (r: Result<(), SqlError>)
        ensures
            r is Ok <==> join_table_ok(*self, dialect),
            r is Ok ==> final(buf)@ == old(buf)@ + join_table_sql(*self, dialect),
        decreases self,
    {
        proof { reveal_strlit("("); reveal_strlit(")"); }
        match self {
            JoinTable::Select(s) => {
                buf.append("(");
                let res = s.write_sql(buf, dialect);
                if res.is_err() {
                    return res;
                }
                buf.append(")");
                assert(final(buf)@ =~= old(buf)@ + join_table_sql(*self, dialect));
                Ok(())
            },
            JoinTable::Table { schema, table } => push_table_name(buf, schema, table.as_str()),
        }
    }
}

impl Join {
    /// An inner join of a table, matching every row until a condition is given.
    pub fn new(table: &str) -> (r: Self)
        ensures
            r.typ == JoinType::Inner,
            r.table matches JoinTable::Table { schema, table: t } && schema is None && t@ == table@,
            r.alias is None,
            r.criteria matches Criteria::On(Where::And(v)) && v@.len() == 0,
    {
        Join {
            typ: JoinType::Inner,
            table: JoinTable::Table { schema: None, table: str_to_string(table) },
            alias: None,
            criteria: Criteria::On(Where::And(Vec::new())),
        }
    }

    /// A left join of a table, matching every row until a condition is given.
    pub fn left(table: &str) -> (r: Self)
        ensures
            r.typ == JoinType::Left,
            r.table matches JoinTable::Table { schema, table: t } && schema is None && t@ == table@,
            r.alias is None,
            r.criteria matches Criteria::On(Where::And(v)) && v@.len() == 0,
    {
        Join {
            typ: JoinType::Left,
            table: JoinTable::Table { schema: None, table: str_to_string(table) },
            alias: None,
            criteria: Criteria::On(Where::And(Vec::new())),
        }
    }

    pub fn alias(self, alias: &str) -> (r: Self)
        ensures
            r.alias matches Some(a) && a@ == alias@,
            r == (Join { alias: r.alias, ..self }),
    {
        Join { alias: Some(str_to_string(alias)), ..self }
    }

    /// Matches rows on a condition given as raw SQL text.
    pub fn on_raw(self, on: &str) -> (r: Self)
        ensures
            r == (Join { criteria: r.criteria, ..self }),
            r.criteria is On && r.criteria->On_0 is Expr && r.criteria->On_0->Expr_0 is Raw
                && r.criteria->On_0->Expr_0->Raw_0@ == on@,
    {
        Join { criteria: Criteria::On(Where::raw(on)), ..self }
    }

    #[verifier::spinoff_prover]
    pub fn write_sql(&self, buf: &mut String, dialect: Dialect) -> (r: Result<(), SqlError>)
        ensures
            r is Ok <==> join_ok(*self, dialect),
            r is Ok ==> final(buf)@ == old(buf)@ + join_sql(*self, dialect),
        decreases self,
    {
        proof {
            reveal_strlit("JOIN "); reveal_strlit("LEFT JOIN "); reveal_strlit("RIGHT JOIN ");
            reveal_strlit("FULL JOIN "); reveal_strlit(" AS ");
        }
        match self.typ {
            JoinType::Inner => buf.append("JOIN "),
            JoinType::Left => buf.append("LEFT JOIN "),
            JoinType::Right => buf.append("RIGHT JOIN "),
            JoinType::Full => buf.append("FULL JOIN "),
        }
        let res = self.table.write_sql(buf, dialect);
        if res.is_err() {
            return res;
        }
        if let Some(alias) = &self.alias {
            buf.append(" AS ");
            push_quoted(buf, alias.as_str())?;
        }
        let res = self.criteria.write_sql(buf, dialect);
        assert(res is Ok ==> final(buf)@ =~= old(buf)@ + join_sql(*self, dialect));
        res
    }

    pub fn to_sql(&self, dialect: Dialect) -> (r: Result<String, SqlError>)
        ensures
            r is Ok <==> join_ok(*self, dialect),
            r matches Ok(s) ==> s@ == join_sql(*self, dialect),
    {
        let mut buf = String::new();
        match self.write_sql(&mut buf, dialect) {
            Ok(()) => Ok(buf),
            Err(e) => Err(e),
        }
    }
}

impl crate::to_sql::ToSql for Join {
    open spec fn sql(&self, dialect: Dialect) -> Seq<char> {
        join_sql(*self, dialect)
    }

    open spec fn renders(&self, dialect: Dialect) -> bool {
        join_ok(*self, dialect)
    }

    fn write_sql(&self, buf: &mut String, dialect: Dialect) -> (r: Result<(), SqlError>) {
        Join::write_sql(self, buf, dialect)
    }
}

} // verus!
