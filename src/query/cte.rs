use vstd::prelude::*;
use vstd::string::*;
use crate::query::insert::{insert_ok, insert_sql, Insert};
use crate::query::select::{select_ok, select_sql, Select};
use crate::to_sql::{Dialect, SqlError};
use crate::util::str_to_string;

verus! {

/// The query a common table expression names.
#[derive(Debug, PartialEq, Eq)]
pub enum CteQuery {
    Select(Select),
    Insert(Insert),
    Raw(String),
}

/// A common table expression: `name AS (query)`.
#[derive(Debug, PartialEq, Eq)]
pub struct Cte {
    pub name: String,
    pub query: CteQuery,
}

pub open spec fn cte_query_sql(q: CteQuery, d: Dialect) -> Seq<char>
    decreases q,
{
    match q {
        CteQuery::Select(s) => select_sql(s, d),
        CteQuery::Insert(i) => insert_sql(i, d),
        CteQuery::Raw(s) => s@,
    }
}

pub open spec fn cte_query_ok(q: CteQuery, d: Dialect) -> bool
    decreases q,
{
    match q {
        CteQuery::Select(s) => select_ok(s, d),
        CteQuery::Insert(i) => insert_ok(i, d),
        CteQuery::Raw(s) => true,
    }
}

pub open spec fn cte_sql(c: Cte, d: Dialect) -> Seq<char>
    decreases c,
{
    c.name@ + " AS ("@ + cte_query_sql(c.query, d) + ")"@
}

pub open spec fn cte_ok(c: Cte, d: Dialect) -> bool
    decreases c,
{
    cte_query_ok(c.query, d)
}

/// Common table expressions joined by `, `.
pub open spec fn ctes_sql(v: Seq<Cte>, d: Dialect) -> Seq<char>
    decreases v,
{
    if v.len() == 0 {
        Seq::empty()
    } else if v.len() == 1 {
        cte_sql(v[0], d)
    } else {
        ctes_sql(v.subrange(0, v.len() - 1), d) + ", "@ + cte_sql(v[v.len() - 1], d)
    }
}

pub open spec fn ctes_ok(v: Seq<Cte>, d: Dialect) -> bool
    decreases v,
{
    if v.len() == 0 {
        true
    } else {
        ctes_ok(v.subrange(0, v.len() - 1), d) && cte_ok(v[v.len() - 1], d)
    }
}

/// A failing prefix makes the whole sequence fail.
pub proof fn lemma_ctes_ok_prefix(v: Seq<Cte>, d: Dialect, n: int)
    requires
        0 <= n <= v.len(),
        ctes_ok(v, d),
    ensures
        ctes_ok(v.take(n), d),
    decreases v.len() - n,
{
    if n < v.len() {
        lemma_ctes_ok_prefix(v, d, n + 1);
        assert(v.take(n + 1).subrange(0, n) =~= v.take(n));
    } else {
        assert(v.take(n) =~= v);
    }
}

#[verifier::spinoff_prover]
pub fn write_ctes(v: &Vec<Cte>, buf: &mut String, dialect: Dialect) -> (r: Result<(), SqlError>)
    ensures
        r is Ok <==> ctes_ok(v@, dialect),
        r is Ok ==> final(buf)@ == old(buf)@ + ctes_sql(v@, dialect),
    decreases v,
{
    proof { reveal_strlit(", "); }
    let mut i: usize = 0;
    while i < v.len()
        invariant
            i <= v.len(),
            ctes_ok(v@.take(i as int), dialect),
            buf@ == old(buf)@ + ctes_sql(v@.take(i as int), dialect),
        decreases v.len() - i,
    {
        proof {
            assert(v@.take(i as int + 1).subrange(0, i as int) =~= v@.take(i as int));
            assert(v@.take(i as int + 1)[i as int] == v@[i as int]);
        }
        if i > 0 {
            buf.append(", ");
        }
        let res = v[i].write_sql(buf, dialect);
        if res.is_err() {
            proof { if ctes_ok(v@, dialect) { lemma_ctes_ok_prefix(v@, dialect, i as int + 1); } }
            return res;
        }
        proof { assert(buf@ =~= old(buf)@ + ctes_sql(v@.take(i as int + 1), dialect)); }
        i += 1;
    }
    proof { assert(v@.take(i as int) =~= v@); }
    Ok(())
}

impl CteQuery {
    #[verifier::spinoff_prover]
    pub fn write_sql(&self, buf: &mut String, dialect: Dialect) -> (r: Result<(), SqlError>)
        ensures
            r is Ok <==> cte_query_ok(*self, dialect),
            r is Ok ==> final(buf)@ == old(buf)@ + cte_query_sql(*self, dialect),
        decreases self,
    {
        match self {
            CteQuery::Select(s) => s.write_sql(buf, dialect),
            CteQuery::Insert(i) => i.write_sql(buf, dialect),
            CteQuery::Raw(s) => {
                buf.append(s.as_str());
                Ok(())
            },
        }
    }
}

impl Cte {
    pub fn new(name: &str, query: CteQuery) -> (r: Self)
        ensures
            r.name@ == name@,
            r.query == query,
    {
        Cte { name: str_to_string(name), query }
    }

    #[verifier::spinoff_prover]
    pub fn write_sql(&self, buf: &mut String, dialect: Dialect) -> (r: Result<(), SqlError>)
        ensures
            r is Ok <==> cte_ok(*self, dialect),
            r is Ok ==> final(buf)@ == old(buf)@ + cte_sql(*self, dialect),
        decreases self,
    {
        proof { reveal_strlit(" AS ("); reveal_strlit(")"); }
        buf.append(self.name.as_str());
        buf.append(" AS (");
        self.query.write_sql(buf, dialect)?;
        buf.append(")");
        assert(final(buf)@ =~= old(buf)@ + cte_sql(*self, dialect));
        Ok(())
    }
}

} // verus!
