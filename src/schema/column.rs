use vstd::prelude::*;
use vstd::string::*;
use crate::query::expr::{expr_ok, expr_sql, same_expr, Expr};
use crate::schema::column_type::{type_sql, Type};
use crate::schema::constraint::{constraint_ok, constraint_sql, Constraint};
use crate::to_sql::{Dialect, SqlError};
use crate::util::{push_quoted, quotable, quoted};

verus! {

/// A column of a table. A primary-key column is not nullable.
#[derive(Debug, PartialEq, Eq)]
pub struct Column {
    pub name: String,
    pub typ: Type,
    pub nullable: bool,
    pub primary_key: bool,
    pub default: Option<Expr>,
    pub constraint: Option<Constraint>,
}

/// `"name" type [NOT NULL] [PRIMARY KEY] [DEFAULT expr] [constraint]`.
pub open spec fn column_sql(c: Column, d: Dialect) -> Seq<char> {
    quoted(c.name@) + " "@ + type_sql(c.typ, d) + (if !c.nullable {
        " NOT NULL"@
    } else {
        Seq::empty()
    }) + (if c.primary_key {
        " PRIMARY KEY"@
    } else {
        Seq::empty()
    }) + (match c.default {
        Some(e) => " DEFAULT "@ + expr_sql(e),
        None => Seq::empty(),
    }) + (match c.constraint {
        Some(k) => " "@ + constraint_sql(k),
        None => Seq::empty(),
    })
}

pub open spec fn column_ok(c: Column) -> bool {
    quotable(c.name@) && (match c.default {
        Some(e) => expr_ok(e),
        None => true,
    }) && (match c.constraint {
        Some(k) => constraint_ok(k),
        None => true,
    })
}

/// `a` is a copy of `b`: the same name, type and flags, the same default
/// expression, and a constraint on the same table and columns.
pub open spec fn copied_column(a: Column, b: Column) -> bool {
    &&& a.name == b.name
    &&& a.typ == b.typ
    &&& a.nullable == b.nullable
    &&& a.primary_key == b.primary_key
    &&& (a.default is Some <==> b.default is Some)
    &&& (a.default is Some ==> same_expr(b.default->0, a.default->0))
    &&& (a.constraint is Some <==> b.constraint is Some)
    &&& (a.constraint is Some ==> a.constraint->0->ForeignKey_0.table == b.constraint->0->ForeignKey_0.table
        && a.constraint->0->ForeignKey_0.columns@ == b.constraint->0->ForeignKey_0.columns@)
}

impl Clone for Column {
    fn clone(&self) -> (r: Self)
        ensures
            copied_column(r, *self),
    {
        let default = match &self.default {
            Some(e) => Some(e.clone()),
            None => None,
        };
        let constraint = match &self.constraint {
            Some(k) => Some(k.clone()),
            None => None,
        };
        Column {
            name: self.name.clone(),
            typ: self.typ.clone(),
            nullable: self.nullable,
            primary_key: self.primary_key,
            default,
            constraint,
        }
    }
}

impl Column {
    #[verifier::spinoff_prover]
    pub fn write_sql(&self, buf: &mut String, dialect: Dialect) -> (r: Result<(), SqlError>)
        ensures
            r is Ok <==> column_ok(*self),
            r is Ok ==> final(buf)@ == old(buf)@ + column_sql(*self, dialect),
            r matches Err(e) ==> e == SqlError::QuoteInIdentifier,
    {
        proof {
            reveal_strlit(" ");
            reveal_strlit(" NOT NULL");
            reveal_strlit(" PRIMARY KEY");
            reveal_strlit(" DEFAULT ");
        }
        let res = push_quoted(buf, self.name.as_str());
        if res.is_err() {
            return res;
        }
        buf.append(" ");
        self.typ.write_sql(buf, dialect);
        if !self.nullable {
            buf.append(" NOT NULL");
        }
        if self.primary_key {
            buf.append(" PRIMARY KEY");
        }
        if let Some(default) = &self.default {
            buf.append(" DEFAULT ");
            default.write_sql(buf, dialect)?;
        }
        if let Some(constraint) = &self.constraint {
            buf.append(" ");
            constraint.write_sql(buf, dialect)?;
        }
        assert(final(buf)@ =~= old(buf)@ + column_sql(*self, dialect));
        Ok(())
    }

    pub fn to_sql(&self, dialect: Dialect) -> (r: Result<String, SqlError>)
        ensures
            r is Ok <==> column_ok(*self),
            r matches Ok(s) ==> s@ == column_sql(*self, dialect),
            r matches Err(e) ==> e == SqlError::QuoteInIdentifier,
    {
        let mut buf = String::new();
        match self.write_sql(&mut buf, dialect) {
            Ok(()) => Ok(buf),
            Err(e) => Err(e),
        }
    }
}

impl crate::to_sql::ToSql for Column {
    open spec fn sql(&self, dialect: Dialect) -> Seq<char> {
        column_sql(*self, dialect)
    }

    open spec fn renders(&self, dialect: Dialect) -> bool {
        column_ok(*self)
    }

    fn write_sql(&self, buf: &mut String, dialect: Dialect) -> (r: Result<(), SqlError>) {
        Column::write_sql(self, buf, dialect)
    }
}

} // verus!
