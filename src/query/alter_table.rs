use vstd::prelude::*;
use vstd::string::*;
use crate::schema::column::{column_ok, column_sql, Column};
use crate::schema::column_type::{type_sql, Type};
use crate::schema::constraint::{constraint_ok, constraint_sql, Constraint};
use crate::to_sql::{Dialect, SqlError};
use crate::util::{push_quoted, push_table_name, quotable, quoted, str_to_string, table_ref, table_ref_ok};

verus! {

/// What is changed about an existing column.
#[derive(Debug, PartialEq, Eq)]
pub enum AlterColumnAction {
    SetType { typ: Type, using: Option<String> },
    SetNullable(bool),
}

/// One change to a table.
#[derive(Debug, PartialEq, Eq)]
pub enum AlterAction {
    AddColumn { column: Column },
    AlterColumn { name: String, action: AlterColumnAction },
    AddConstraint { name: String, column: String, constraint: Constraint },
}

/// `ALTER TABLE` with its actions.
#[derive(Debug, PartialEq, Eq)]
pub struct AlterTable {
    pub schema: Option<String>,
    pub name: String,
    pub actions: Vec<AlterAction>,
}

/// The name given to the foreign key of a column: `fk_<table>_<column>`.
pub open spec fn fk_name(table: Seq<char>, column: Seq<char>) -> Seq<char> {
    "fk_"@ + table + "_"@ + column
}

pub open spec fn alter_action_sql(a: AlterAction, d: Dialect) -> Seq<char> {
    match a {
        AlterAction::AddColumn { column } => " ADD COLUMN "@ + column_sql(column, d),
        AlterAction::AlterColumn { name, action } => " ALTER COLUMN "@ + quoted(name@) + match action {
            AlterColumnAction::SetType { typ, using } => " TYPE "@ + type_sql(typ, d) + " USING "@
                + match using {
                Some(u) => u@,
                None => quoted(name@) + "::"@ + type_sql(typ, d),
            },
            AlterColumnAction::SetNullable(b) => if b {
                " DROP NOT NULL"@
            } else {
                " SET NOT NULL"@
            },
        },
        AlterAction::AddConstraint { name, column, constraint } => " ADD CONSTRAINT "@ + quoted(name@)
            + " FOREIGN KEY ("@ + quoted(column@) + ") "@ + constraint_sql(constraint),
    }
}

pub open spec fn alter_action_ok(a: AlterAction) -> bool {
    match a {
        AlterAction::AddColumn { column } => column_ok(column),
        AlterAction::AlterColumn { name, action } => quotable(name@),
        AlterAction::AddConstraint { name, column, constraint } => quotable(name@) && quotable(
            column@,
        ) && constraint_ok(constraint),
    }
}

pub open spec fn alter_actions_sql(v: Seq<AlterAction>, d: Dialect) -> Seq<char>
    decreases v.len(),
{
    if v.len() == 0 {
        Seq::empty()
    } else if v.len() == 1 {
        alter_action_sql(v[0], d)
    } else {
        alter_actions_sql(v.drop_last(), d) + ","@ + alter_action_sql(v.last(), d)
    }
}

pub open spec fn alter_table_sql(t: AlterTable, d: Dialect) -> Seq<char> {
    "ALTER TABLE "@ + table_ref(t.schema, t.name@) + alter_actions_sql(t.actions@, d)
}

pub open spec fn alter_table_ok(t: AlterTable) -> bool {
    table_ref_ok(t.schema, t.name@) && forall|i: int|
        0 <= i < t.actions@.len() ==> alter_action_ok(#[trigger] t.actions@[i])
}

impl AlterAction {
    pub fn set_nullable(name: String, nullable: bool) -> (r: Self)
        ensures
            r == (AlterAction::AlterColumn { name, action: AlterColumnAction::SetNullable(nullable) }),
    {
        AlterAction::AlterColumn { name, action: AlterColumnAction::SetNullable(nullable) }
    }

    pub fn set_type(name: String, typ: Type) -> (r: Self)
        ensures
            r == (AlterAction::AlterColumn {
                name,
                action: AlterColumnAction::SetType { typ, using: None },
            }),
    {
        AlterAction::AlterColumn { name, action: AlterColumnAction::SetType { typ, using: None } }
    }

    /// A foreign key on `column`, named `fk_<table>_<column>`.
    pub fn add_constraint(table: &str, column: String, constraint: Constraint) -> (r: Self)
        ensures
            r matches AlterAction::AddConstraint { name, column: c, constraint: k } && name@ == fk_name(
                table@,
                column@,
            ) && c == column && k == constraint,
    {
        proof { reveal_strlit("fk_"); reveal_strlit("_"); }
        let name = str_to_string("fk_").concat(table).concat("_").concat(column.as_str());
        assert(name@ =~= fk_name(table@, column@));
        AlterAction::AddConstraint { name, column, constraint }
    }

    pub fn write_sql(&self, buf: &mut String, dialect: Dialect) -> (r: Result<(), SqlError>)
        ensures
            r is Ok <==> alter_action_ok(*self),
            r is Ok ==> final(buf)@ == old(buf)@ + alter_action_sql(*self, dialect),
            r matches Err(e) ==> e == SqlError::QuoteInIdentifier,
    {
        proof {
            reveal_strlit(" ADD COLUMN "); reveal_strlit(" ALTER COLUMN "); reveal_strlit(" TYPE ");
            reveal_strlit(" USING "); reveal_strlit("::"); reveal_strlit(" DROP NOT NULL");
            reveal_strlit(" SET NOT NULL"); reveal_strlit(" ADD CONSTRAINT ");
            reveal_strlit(" FOREIGN KEY ("); reveal_strlit(") ");
        }
        match self {
            AlterAction::AddColumn { column } => {
                buf.append(" ADD COLUMN ");
                let res = column.write_sql(buf, dialect);
                assert(res is Ok ==> final(buf)@ =~= old(buf)@ + alter_action_sql(*self, dialect));
                res
            },
            AlterAction::AlterColumn { name, action } => {
                buf.append(" ALTER COLUMN ");
                let res = push_quoted(buf, name.as_str());
                if res.is_err() {
                    return res;
                }
                match action {
                    AlterColumnAction::SetType { typ, using } => {
                        buf.append(" TYPE ");
                        typ.write_sql(buf, dialect);
                        buf.append(" USING ");
                        match using {
                            Some(u) => buf.append(u.as_str()),
                            None => {
                                let _ = push_quoted(buf, name.as_str());
                                buf.append("::");
                                typ.write_sql(buf, dialect);
                            },
                        }
                    },
                    AlterColumnAction::SetNullable(nullable) => {
                        if *nullable {
                            buf.append(" DROP NOT NULL");
                        } else {
                            buf.append(" SET NOT NULL");
                        }
                    },
                }
                assert(final(buf)@ =~= old(buf)@ + alter_action_sql(*self, dialect));
                Ok(())
            },
            AlterAction::AddConstraint { name, column, constraint } => {
                buf.append(" ADD CONSTRAINT ");
                let res = push_quoted(buf, name.as_str());
                if res.is_err() {
                    return res;
                }
                buf.append(" FOREIGN KEY (");
                let res = push_quoted(buf, column.as_str());
                if res.is_err() {
                    return res;
                }
                buf.append(") ");
                let res = constraint.write_sql(buf, dialect);
                assert(res is Ok ==> final(buf)@ =~= old(buf)@ + alter_action_sql(*self, dialect));
                res
            },
        }
    }

    pub fn to_sql(&self, dialect: Dialect) -> (r: Result<String, SqlError>)
        ensures
            r is Ok <==> alter_action_ok(*self),
            r matches Ok(s) ==> s@ == alter_action_sql(*self, dialect),
            r matches Err(e) ==> e == SqlError::QuoteInIdentifier,
    {
        let mut buf = String::new();
        match self.write_sql(&mut buf, dialect) {
            Ok(()) => Ok(buf),
            Err(e) => Err(e),
        }
    }
}

impl AlterTable {
    pub fn write_sql(&self, buf: &mut String, dialect: Dialect) -> (r: Result<(), SqlError>)
        ensures
            r is Ok <==> alter_table_ok(*self),
            r is Ok ==> final(buf)@ == old(buf)@ + alter_table_sql(*self, dialect),
            r matches Err(e) ==> e == SqlError::QuoteInIdentifier,
    {
        proof { reveal_strlit("ALTER TABLE "); reveal_strlit(","); }
        buf.append("ALTER TABLE ");
        let res = push_table_name(buf, &self.schema, self.name.as_str());
        if res.is_err() {
            return res;
        }
        let ghost start = buf@;
        let mut i: usize = 0;
        while i < self.actions.len()
            invariant
                i <= self.actions.len(),
                table_ref_ok(self.schema, self.name@),
                forall|j: int| 0 <= j < i ==> alter_action_ok(#[trigger] self.actions@[j]),
                buf@ == start + alter_actions_sql(self.actions@.take(i as int), dialect),
            decreases self.actions.len() - i,
        {
            proof { assert(self.actions@.take(i as int + 1).drop_last() =~= self.actions@.take(i as int)); }
            if i > 0 {
                buf.append(",");
            }
            let res = self.actions[i].write_sql(buf, dialect);
            if res.is_err() {
                return res;
            }
            proof {
                assert(buf@ =~= start + alter_actions_sql(self.actions@.take(i as int + 1), dialect));
            }
            i += 1;
        }
        proof { assert(self.actions@.take(i as int) =~= self.actions@); }
        assert(final(buf)@ =~= old(buf)@ + alter_table_sql(*self, dialect));
        Ok(())
    }

    pub fn to_sql(&self, dialect: Dialect) -> (r: Result<String, SqlError>)
        ensures
            r is Ok <==> alter_table_ok(*self),
            r matches Ok(s) ==> s@ == alter_table_sql(*self, dialect),
            r matches Err(e) ==> e == SqlError::QuoteInIdentifier,
    {
        let mut buf = String::new();
        match self.write_sql(&mut buf, dialect) {
            Ok(()) => Ok(buf),
            Err(e) => Err(e),
        }
    }
}

impl crate::to_sql::ToSql for AlterTable {
    open spec fn sql(&self, dialect: Dialect) -> Seq<char> {
        alter_table_sql(*self, dialect)
    }

    open spec fn renders(&self, dialect: Dialect) -> bool {
        alter_table_ok(*self)
    }

    fn write_sql(&self, buf: &mut String, dialect: Dialect) -> (r: Result<(), SqlError>) {
        AlterTable::write_sql(self, buf, dialect)
    }
}

} // verus!
