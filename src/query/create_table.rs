use vstd::prelude::*;
use vstd::string::*;
use crate::schema::column::{column_ok, column_sql, copied_column, Column};
use crate::schema::table::Table;
use crate::to_sql::{Dialect, SqlError};
use crate::util::{push_table_name, table_ref, table_ref_ok};

verus! {

/// `CREATE TABLE` with the given columns.
#[derive(Debug, PartialEq, Eq)]
pub struct CreateTable {
    pub schema: Option<String>,
    pub name: String,
    pub columns: Vec<Column>,
}

/// Column definitions joined by `,\n`.
pub open spec fn columns_sql(v: Seq<Column>, d: Dialect) -> Seq<char>
    decreases v.len(),
{
    if v.len() == 0 {
        Seq::empty()
    } else if v.len() == 1 {
        column_sql(v[0], d)
    } else {
        columns_sql(v.drop_last(), d) + ",\n"@ + column_sql(v.last(), d)
    }
}

pub open spec fn columns_ok(v: Seq<Column>) -> bool {
    forall|i: int| 0 <= i < v.len() ==> column_ok(#[trigger] v[i])
}

/// `CREATE TABLE "schema"."name" (\n<col>,\n<col>\n)`.
pub open spec fn create_table_sql(c: CreateTable, d: Dialect) -> Seq<char> {
    "CREATE TABLE "@ + table_ref(c.schema, c.name@) + " (\n"@ + columns_sql(c.columns@, d) + "\n)"@
}

pub open spec fn create_table_ok(c: CreateTable) -> bool {
    table_ref_ok(c.schema, c.name@) && columns_ok(c.columns@)
}

/// Appends column definitions joined by `,\n`.
pub fn write_columns(v: &Vec<Column>, buf: &mut String, dialect: Dialect) -> (r: Result<(), SqlError>)
    ensures
        r is Ok <==> columns_ok(v@),
        r is Ok ==> final(buf)@ == old(buf)@ + columns_sql(v@, dialect),
        r matches Err(e) ==> e == SqlError::QuoteInIdentifier,
{
    proof { reveal_strlit(",\n"); }
    let mut i: usize = 0;
    while i < v.len()
        invariant
            i <= v.len(),
            forall|j: int| 0 <= j < i ==> column_ok(#[trigger] v@[j]),
            buf@ == old(buf)@ + columns_sql(v@.take(i as int), dialect),
        decreases v.len() - i,
    {
        proof { assert(v@.take(i as int + 1).drop_last() =~= v@.take(i as int)); }
        if i > 0 {
            buf.append(",\n");
        }
        let res = v[i].write_sql(buf, dialect);
        if res.is_err() {
            return res;
        }
        proof { assert(buf@ =~= old(buf)@ + columns_sql(v@.take(i as int + 1), dialect)); }
        i += 1;
    }
    proof { assert(v@.take(i as int) =~= v@); }
    Ok(())
}

impl CreateTable {
    /// A `CREATE TABLE` for a copy of the table's columns.
    pub fn from_table(table: &Table) -> (r: CreateTable)
        ensures
            r.schema == table.schema,
            r.name == table.name,
            r.columns@.len() == table.columns@.len(),
            forall|i: int| 0 <= i < table.columns@.len() ==> copied_column(#[trigger] r.columns@[i], table.columns@[i]),
    {
        let mut columns: Vec<Column> = Vec::new();
        let mut i: usize = 0;
        while i < table.columns.len()
            invariant
                i <= table.columns.len(),
                columns@.len() == i,
                forall|j: int| 0 <= j < i ==> copied_column(#[trigger] columns@[j], table.columns@[j]),
            decreases table.columns.len() - i,
        {
            let c = table.columns[i].clone();
            columns.push(c);
            i += 1;
        }
        CreateTable {
            schema: crate::util::clone_opt_string(&table.schema),
            name: table.name.clone(),
            columns,
        }
    }

    pub fn write_sql(&self, buf: &mut String, dialect: Dialect) -> (r: Result<(), SqlError>)
        ensures
            r is Ok <==> create_table_ok(*self),
            r is Ok ==> final(buf)@ == old(buf)@ + create_table_sql(*self, dialect),
            r matches Err(e) ==> e == SqlError::QuoteInIdentifier,
    {
        proof {
            reveal_strlit("CREATE TABLE ");
            reveal_strlit(" (\n");
            reveal_strlit("\n)");
        }
        buf.append("CREATE TABLE ");
        let res = push_table_name(buf, &self.schema, self.name.as_str());
        if res.is_err() {
            return res;
        }
        buf.append(" (\n");
        write_columns(&self.columns, buf, dialect)?;
        buf.append("\n)");
        assert(final(buf)@ =~= old(buf)@ + create_table_sql(*self, dialect));
        Ok(())
    }

    pub fn to_sql(&self, dialect: Dialect) -> (r: Result<String, SqlError>)
        ensures
            r is Ok <==> create_table_ok(*self),
            r matches Ok(s) ==> s@ == create_table_sql(*self, dialect),
            r matches Err(e) ==> e == SqlError::QuoteInIdentifier,
    {
        let mut buf = String::new();
        match self.write_sql(&mut buf, dialect) {
            Ok(()) => Ok(buf),
            Err(e) => Err(e),
        }
    }
}

impl crate::to_sql::ToSql for CreateTable {
    open spec fn sql(&self, dialect: Dialect) -> Seq<char> {
        create_table_sql(*self, dialect)
    }

    open spec fn renders(&self, dialect: Dialect) -> bool {
        create_table_ok(*self)
    }

    fn write_sql(&self, buf: &mut String, dialect: Dialect) -> (r: Result<(), SqlError>) {
        CreateTable::write_sql(self, buf, dialect)
    }
}

} // verus!
