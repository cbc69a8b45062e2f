use vstd::prelude::*;
use vstd::string::*;
use crate::query::expr::{expr_ok, expr_sql, Expr};
use crate::to_sql::{Dialect, SqlError};
use crate::util::str_to_string;

verus! {

/// A condition tree: conjunctions, disjunctions and expressions.
#[derive(Debug, PartialEq, Eq)]
pub enum Where {
    And(Vec<Where>),
    Or(Vec<Where>),
    Raw(String),
    Expr(Expr),
}

pub open spec fn where_sql(w: Where) -> Seq<char>
    decreases w,
{
    match w {
        Where::And(v) => wheres_sql(v@, " AND "@),
        Where::Or(v) => "("@ + wheres_sql(v@, " OR "@) + ")"@,
        Where::Raw(s) => s@,
        Where::Expr(e) => expr_sql(e),
    }
}

pub open spec fn wheres_sql(v: Seq<Where>, sep: Seq<char>) -> Seq<char>
    decreases v,
{
    if v.len() == 0 {
        Seq::empty()
    } else if v.len() == 1 {
        where_sql(v[0])
    } else {
        wheres_sql(v.subrange(0, v.len() - 1), sep) + sep + where_sql(v[v.len() - 1])
    }
}

pub open spec fn where_ok(w: Where) -> bool
    decreases w,
{
    match w {
        Where::And(v) => wheres_ok(v@),
        Where::Or(v) => wheres_ok(v@),
        Where::Raw(s) => true,
        Where::Expr(e) => expr_ok(e),
    }
}

pub open spec fn wheres_ok(v: Seq<Where>) -> bool
    decreases v,
{
    if v.len() == 0 {
        true
    } else {
        wheres_ok(v.subrange(0, v.len() - 1)) && where_ok(v[v.len() - 1])
    }
}

/// A condition with nothing in it, which is left out of a statement.
pub open spec fn where_empty(w: Where) -> bool {
    match w {
        Where::And(v) => v@.len() == 0,
        Where::Or(v) => v@.len() == 0,
        Where::Raw(s) => s@.len() == 0,
        Where::Expr(_) => false,
    }
}

/// A failing prefix makes the whole sequence fail.
pub proof fn lemma_wheres_ok_prefix(v: Seq<Where>, n: int)
    requires
        0 <= n <= v.len(),
        wheres_ok(v),
    ensures
        wheres_ok(v.take(n)),
    decreases v.len() - n,
{
    if n < v.len() {
        lemma_wheres_ok_prefix(v, n + 1);
        assert(v.take(n + 1).subrange(0, n) =~= v.take(n));
    } else {
        assert(v.take(n) =~= v);
    }
}

pub fn write_where_sequence(v: &Vec<Where>, sep: &str, buf: &mut String, dialect: Dialect) -> (r:
    Result<(), SqlError>)
    ensures
        r is Ok <==> wheres_ok(v@),
        r is Ok ==> final(buf)@ == old(buf)@ + wheres_sql(v@, sep@),
        r matches Err(e) ==> e == SqlError::QuoteInIdentifier,
    decreases v,
{
    let mut i: usize = 0;
    while i < v.len()
        invariant
            i <= v.len(),
            wheres_ok(v@.take(i as int)),
            buf@ == old(buf)@ + wheres_sql(v@.take(i as int), sep@),
        decreases v.len() - i,
    {
        proof {
            assert(v@.take(i as int + 1).subrange(0, i as int) =~= v@.take(i as int));
            assert(v@.take(i as int + 1)[i as int] == v@[i as int]);
        }
        if i > 0 {
            buf.append(sep);
        }
        let res = v[i].write_sql(buf, dialect);
        if res.is_err() {
            proof { if wheres_ok(v@) { lemma_wheres_ok_prefix(v@, i as int + 1); } }
            return res;
        }
        proof { assert(buf@ =~= old(buf)@ + wheres_sql(v@.take(i as int + 1), sep@)); }
        i += 1;
    }
    proof { assert(v@.take(i as int) =~= v@); }
    Ok(())
}

impl Where {
    pub fn is_empty(&self) -> (r: bool)
        ensures
            r == where_empty(*self),
    {
        match self {
            Where::And(v) => v.len() == 0,
            Where::Or(v) => v.len() == 0,
            Where::Raw(s) => s.as_str().unicode_len() == 0,
            Where::Expr(_) => false,
        }
    }

    /// A condition given as raw SQL text.
    pub fn raw(s: &str) -> (r: Self)
        ensures
            r matches Where::Expr(Expr::Raw(t)) && t@ == s@,
    {
        Where::Expr(Expr::Raw(str_to_string(s)))
    }

    /// Adds a conjunct: appended to a conjunction, or joined with the condition
    /// under a new conjunction.
    pub fn and(self, extra: Where) -> (r: Where)
        ensures
            self matches Where::And(v) ==> (r matches Where::And(u) && u@ == v@.push(extra)),
            !(self is And) ==> (r matches Where::And(u) && u@ == seq![self, extra]),
    {
        match self {
            Where::And(v) => {
                let mut v = v;
                v.push(extra);
                Where::And(v)
            },
            other => Where::And(vec![other, extra]),
        }
    }

    pub fn write_sql(&self, buf: &mut String, dialect: Dialect) -> (r: Result<(), SqlError>)
        ensures
            r is Ok <==> where_ok(*self),
            r is Ok ==> final(buf)@ == old(buf)@ + where_sql(*self),
            r matches Err(e) ==> e == SqlError::QuoteInIdentifier,
        decreases self,
    {
        proof { reveal_strlit("("); reveal_strlit(")"); reveal_strlit(" AND "); reveal_strlit(" OR "); }
        match self {
            Where::And(v) => write_where_sequence(v, " AND ", buf, dialect),
            Where::Or(v) => {
                buf.append("(");
                write_where_sequence(v, " OR ", buf, dialect)?;
                buf.append(")");
                assert(final(buf)@ =~= old(buf)@ + where_sql(*self));
                Ok(())
            },
            Where::Raw(s) => {
                buf.append(s.as_str());
                Ok(())
            },
            Where::Expr(e) => e.write_sql(buf, dialect),
        }
    }

    pub fn to_sql(&self, dialect: Dialect) -> (r: Result<String, SqlError>)
        ensures
            r is Ok <==> where_ok(*self),
            r matches Ok(s) ==> s@ == where_sql(*self),
            r matches Err(e) ==> e == SqlError::QuoteInIdentifier,
    {
        let mut buf = String::new();
        match self.write_sql(&mut buf, dialect) {
            Ok(()) => Ok(buf),
            Err(e) => Err(e),
        }
    }
}

impl crate::to_sql::ToSql for Where {
    open spec fn sql(&self, dialect: Dialect) -> Seq<char> {
        where_sql(*self)
    }

    open spec fn renders(&self, dialect: Dialect) -> bool {
        where_ok(*self)
    }

    fn write_sql(&self, buf: &mut String, dialect: Dialect) -> (r: Result<(), SqlError>) {
        Where::write_sql(self, buf, dialect)
    }
}

} // verus!
