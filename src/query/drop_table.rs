use vstd::prelude::*;
use vstd::string::*;
use crate::schema::table::Table;
use crate::to_sql::{Dialect, SqlError};
use crate::util::{push_table_name, table_ref, table_ref_ok};

verus! {

/// `DROP TABLE`.
#[derive(Debug, PartialEq, Eq)]
pub struct DropTable {
    pub schema: Option<String>,
    pub name: String,
}

pub open spec fn drop_table_sql(t: DropTable) -> Seq<char> {
    "DROP TABLE "@ + table_ref(t.schema, t.name@)
}

impl DropTable {
    pub fn from_table(table: &Table) -> (r: DropTable)
        ensures
            r.schema == table.schema,
            r.name == table.name,
    {
        DropTable {
            schema: crate::util::clone_opt_string(&table.schema),
            name: table.name.clone(),
        }
    }

    pub fn write_sql(&self, buf: &mut String, dialect: Dialect) -> (r: Result<(), SqlError>)
        ensures
            r is Ok <==> table_ref_ok(self.schema, self.name@),
            r is Ok ==> final(buf)@ == old(buf)@ + drop_table_sql(*self),
            r matches Err(e) ==> e == SqlError::QuoteInIdentifier,
    {
        proof { reveal_strlit("DROP TABLE "); }
        buf.append("DROP TABLE ");
        let res = push_table_name(buf, &self.schema, self.name.as_str());
        assert(res is Ok ==> final(buf)@ =~= old(buf)@ + drop_table_sql(*self));
        res
    }

    pub fn to_sql(&self, dialect: Dialect) -> (r: Result<String, SqlError>)
        ensures
            r is Ok <==> table_ref_ok(self.schema, self.name@),
            r matches Ok(s) ==> s@ == drop_table_sql(*self),
            r matches Err(e) ==> e == SqlError::QuoteInIdentifier,
    {
        let mut buf = String::new();
        match self.write_sql(&mut buf, dialect) {
            Ok(()) => Ok(buf),
            Err(e) => Err(e),
        }
    }
}

impl crate::to_sql::ToSql for DropTable {
    open spec fn sql(&self, dialect: Dialect) -> Seq<char> {
        drop_table_sql(*self)
    }

    open spec fn renders(&self, dialect: Dialect) -> bool {
        table_ref_ok(self.schema, self.name@)
    }

    fn write_sql(&self, buf: &mut String, dialect: Dialect) -> (r: Result<(), SqlError>) {
        DropTable::write_sql(self, buf, dialect)
    }
}

} // verus!
