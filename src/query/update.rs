use vstd::prelude::*;
use vstd::string::*;
use crate::query::cte::{ctes_ok, ctes_sql, write_ctes, Cte};
use crate::query::insert::join_texts;
use crate::query::where_clause::{where_empty, where_ok, where_sql, Where};
use crate::to_sql::{Dialect, SqlError};
use crate::util::{push_quoted, push_table_name, quotable, quoted, str_to_string, table_ref, table_ref_ok};

verus! {

/// An UPDATE statement: column assignments, as raw SQL values, under a condition.
#[derive(Debug, PartialEq, Eq)]
pub struct Update {
    pub ctes: Vec<Cte>,
    pub schema: Option<String>,
    pub table: String,
    pub values: Vec<(String, String)>,
    pub where_: Where,
}

pub open spec fn assignments(v: Seq<(String, String)>) -> Seq<Seq<char>> {
    Seq::new(v.len(), |i: int| quoted(v[i].0@) + " = "@ + v[i].1@)
}

pub open spec fn update_sql(u: Update, d: Dialect) -> Seq<char> {
    (if u.ctes@.len() > 0 {
        "WITH "@ + ctes_sql(u.ctes@, d) + " "@
    } else {
        Seq::empty()
    }) + "UPDATE "@ + table_ref(u.schema, u.table@) + " SET "@ + join_texts(assignments(u.values@), ", "@)
        + (if !where_empty(u.where_) {
        " WHERE "@ + where_sql(u.where_)
    } else {
        Seq::empty()
    })
}

pub open spec fn update_ok(u: Update, d: Dialect) -> bool {
    &&& ctes_ok(u.ctes@, d)
    &&& table_ref_ok(u.schema, u.table@)
    &&& forall|i: int| 0 <= i < u.values@.len() ==> quotable((#[trigger] u.values@[i]).0@)
    &&& (!where_empty(u.where_) ==> where_ok(u.where_))
}

impl Update {
    pub fn new(table: &str) -> (r: Self)
        ensures
            r.ctes@.len() == 0,
            r.schema is None,
            r.table@ == table@,
            r.values@.len() == 0,
            r.where_ matches Where::And(v) && v@.len() == 0,
    {
        Update {
            ctes: Vec::new(),
            schema: None,
            table: str_to_string(table),
            values: Vec::new(),
            where_: Where::And(Vec::new()),
        }
    }

    /// Adds the assignment `column = value`, the value as raw SQL text.
    pub fn set(self, column: &str, value: &str) -> (r: Self)
        ensures
            r.values@.len() == self.values@.len() + 1,
            r.values@.drop_last() == self.values@,
            r.values@.last().0@ == column@,
            r.values@.last().1@ == value@,
            r == (Update { values: r.values, ..self }),
    {
        let mut u = self;
        u.values.push((str_to_string(column), str_to_string(value)));
        assert(u.values@.drop_last() =~= self.values@);
        u
    }

    /// Adds a condition, joined to the existing ones with AND.
    pub fn where_(self, where_: Where) -> (r: Self)
        ensures
            self.where_ matches Where::And(v) ==> (r.where_ matches Where::And(u) && u@ == v@.push(
                where_,
            )),
            !(self.where_ is And) ==> (r.where_ matches Where::And(u) && u@ == seq![
                self.where_,
                where_,
            ]),
            r == (Update { where_: r.where_, ..self }),
    {
        let Update { ctes, schema, table, values, where_: w } = self;
        Update { ctes, schema, table, values, where_: w.and(where_) }
    }

    #[verifier::spinoff_prover]
    pub fn write_sql(&self, buf: &mut String, dialect: Dialect) -> (r: Result<(), SqlError>)
        ensures
            r is Ok <==> update_ok(*self, dialect),
            r is Ok ==> final(buf)@ == old(buf)@ + update_sql(*self, dialect),
    {
        proof {
            reveal_strlit("WITH "); reveal_strlit(" "); reveal_strlit("UPDATE ");
            reveal_strlit(" SET "); reveal_strlit(", "); reveal_strlit(" = "); reveal_strlit(" WHERE ");
        }
        if self.ctes.len() > 0 {
            buf.append("WITH ");
            let res = write_ctes(&self.ctes, buf, dialect);
            if res.is_err() {
                return res;
            }
            buf.append(" ");
        } else {
            assert(ctes_ok(self.ctes@, dialect));
        }
        buf.append("UPDATE ");
        let res = push_table_name(buf, &self.schema, self.table.as_str());
        if res.is_err() {
            return res;
        }
        buf.append(" SET ");
        let ghost g = buf@;
        let mut i: usize = 0;
        while i < self.values.len()
            invariant
                i <= self.values.len(),
                ctes_ok(self.ctes@, dialect),
                table_ref_ok(self.schema, self.table@),
                forall|j: int| 0 <= j < i ==> quotable((#[trigger] self.values@[j]).0@),
                buf@ == g + join_texts(assignments(self.values@.take(i as int)), ", "@),
            decreases self.values.len() - i,
        {
            proof {
                assert(assignments(self.values@.take(i as int + 1)).drop_last() =~= assignments(
                    self.values@.take(i as int),
                ));
            }
            if i > 0 {
                buf.append(", ");
            }
            let res = push_quoted(buf, self.values[i].0.as_str());
            if res.is_err() {
                return res;
            }
            buf.append(" = ");
            buf.append(self.values[i].1.as_str());
            proof { assert(buf@ =~= g + join_texts(assignments(self.values@.take(i as int + 1)), ", "@)); }
            i += 1;
        }
        proof { assert(self.values@.take(i as int) =~= self.values@); }
        if !self.where_.is_empty() {
            buf.append(" WHERE ");
            let res = self.where_.write_sql(buf, dialect);
            if res.is_err() {
                return res;
            }
        }
        assert(final(buf)@ =~= old(buf)@ + update_sql(*self, dialect));
        Ok(())
    }

    pub fn to_sql(&self, dialect: Dialect) -> (r: Result<String, SqlError>)
        ensures
            r is Ok <==> update_ok(*self, dialect),
            r matches Ok(s) ==> s@ == update_sql(*self, dialect),
    {
        let mut buf = String::new();
        match self.write_sql(&mut buf, dialect) {
            Ok(()) => Ok(buf),
            Err(e) => Err(e),
        }
    }
}

impl crate::to_sql::ToSql for Update {
    open spec fn sql(&self, dialect: Dialect) -> Seq<char> {
        update_sql(*self, dialect)
    }

    open spec fn renders(&self, dialect: Dialect) -> bool {
        update_ok(*self, dialect)
    }

    fn write_sql(&self, buf: &mut String, dialect: Dialect) -> (r: Result<(), SqlError>) {
        Update::write_sql(self, buf, dialect)
    }
}

} // verus!
