use vstd::prelude::*;
use vstd::string::*;
use crate::to_sql::{Dialect, SqlError};
use crate::util::{all_quotable, push_quoted, push_quoted_sequence, quoted, quoted_list};

verus! {

/// A reference from a column to columns of another table.
#[derive(Debug, PartialEq, Eq)]
pub struct ForeignKey {
    pub table: String,
    pub columns: Vec<String>,
}

/// A constraint on a column.
#[derive(Debug, PartialEq, Eq)]
pub enum Constraint {
    ForeignKey(ForeignKey),
}

/// `REFERENCES "table"("a", "b")`; the column list is left out when empty.
pub open spec fn foreign_key_sql(fk: ForeignKey) -> Seq<char> {
    "REFERENCES "@ + quoted(fk.table@) + (if fk.columns@.len() == 0 {
        Seq::empty()
    } else {
        "("@ + quoted_list(fk.columns@, ", "@) + ")"@
    })
}

pub open spec fn foreign_key_ok(fk: ForeignKey) -> bool {
    crate::util::quotable(fk.table@) && all_quotable(fk.columns@)
}

pub open spec fn constraint_sql(c: Constraint) -> Seq<char> {
    match c {
        Constraint::ForeignKey(fk) => foreign_key_sql(fk),
    }
}

pub open spec fn constraint_ok(c: Constraint) -> bool {
    match c {
        Constraint::ForeignKey(fk) => foreign_key_ok(fk),
    }
}

/// The table a constraint refers to.
pub open spec fn constraint_target(c: Constraint) -> Seq<char> {
    match c {
        Constraint::ForeignKey(fk) => fk.table@,
    }
}

pub(crate) fn clone_strings(v: &Vec<String>) -> (r: Vec<String>)
    ensures
        r@.len() == v@.len(),
        forall|i: int| 0 <= i < v@.len() ==> #[trigger] r@[i] == v@[i],
{
    let mut r: Vec<String> = Vec::new();
    let mut i: usize = 0;
    while i < v.len()
        invariant
            i <= v.len(),
            r@.len() == i,
            forall|j: int| 0 <= j < i ==> #[trigger] r@[j] == v@[j],
        decreases v.len() - i,
    {
        r.push(v[i].clone());
        i += 1;
    }
    r
}

impl Clone for ForeignKey {
    fn clone(&self) -> (r: Self)
        ensures
            r.table == self.table,
            r.columns@ == self.columns@,
    {
        let columns = clone_strings(&self.columns);
        assert(columns@ =~= self.columns@);
        ForeignKey { table: self.table.clone(), columns }
    }
}

impl Clone for Constraint {
    fn clone(&self) -> (r: Self)
        ensures
            r->ForeignKey_0.table == self->ForeignKey_0.table,
            r->ForeignKey_0.columns@ == self->ForeignKey_0.columns@,
    {
        match self {
            Constraint::ForeignKey(fk) => Constraint::ForeignKey(fk.clone()),
        }
    }
}

impl ForeignKey {
    pub fn write_sql(&self, buf: &mut String, dialect: Dialect) -> (r: Result<(), SqlError>)
        ensures
            r is Ok <==> foreign_key_ok(*self),
            r is Ok ==> final(buf)@ == old(buf)@ + foreign_key_sql(*self),
            r matches Err(e) ==> e == SqlError::QuoteInIdentifier,
    {
        proof {
            reveal_strlit("REFERENCES ");
            reveal_strlit("(");
            reveal_strlit(")");
            reveal_strlit(", ");
        }
        buf.append("REFERENCES ");
        let res = push_quoted(buf, self.table.as_str());
        if res.is_err() {
            return res;
        }
        if self.columns.len() > 0 {
            buf.append("(");
            push_quoted_sequence(buf, &self.columns, ", ")?;
            buf.append(")");
        } else {
            assert(all_quotable(self.columns@));
        }
        assert(final(buf)@ =~= old(buf)@ + foreign_key_sql(*self));
        Ok(())
    }
}

impl Constraint {
    pub fn foreign_key(table: String, columns: Vec<String>) -> (r: Self)
        ensures
            r == Constraint::ForeignKey(ForeignKey { table, columns }),
    {
        Constraint::ForeignKey(ForeignKey { table, columns })
    }

    /// The name of the table the constraint refers to.
    pub fn name(&self) -> (r: &str)
        ensures
            r@ == constraint_target(*self),
    {
        match self {
            Constraint::ForeignKey(fk) => fk.table.as_str(),
        }
    }

    pub fn write_sql(&self, buf: &mut String, dialect: Dialect) -> (r: Result<(), SqlError>)
        ensures
            r is Ok <==> constraint_ok(*self),
            r is Ok ==> final(buf)@ == old(buf)@ + constraint_sql(*self),
            r matches Err(e) ==> e == SqlError::QuoteInIdentifier,
    {
        match self {
            Constraint::ForeignKey(fk) => fk.write_sql(buf, dialect),
        }
    }
}

} // verus!
