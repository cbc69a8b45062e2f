use vstd::prelude::*;
use vstd::string::*;
use crate::to_sql::{Dialect, SqlError};
use crate::util::{push_quoted, quotable, quoted, str_to_string};

verus! {

/// `CREATE SCHEMA`.
#[derive(Debug, PartialEq, Eq)]
pub struct CreateSchema {
    pub name: String,
    pub if_not_exists: bool,
}

pub open spec fn create_schema_sql(c: CreateSchema) -> Seq<char> {
    "CREATE SCHEMA "@ + (if c.if_not_exists {
        " IF NOT EXISTS "@
    } else {
        Seq::empty()
    }) + quoted(c.name@)
}

impl CreateSchema {
    pub fn new(name: &str) -> (r: Self)
        ensures
            r.name@ == name@,
            !r.if_not_exists,
    {
        CreateSchema { name: str_to_string(name), if_not_exists: false }
    }

    pub fn if_not_exists(self) -> (r: Self)
        ensures
            r.name == self.name,
            r.if_not_exists,
    {
        CreateSchema { if_not_exists: true, ..self }
    }

    pub fn write_sql(&self, buf: &mut String, dialect: Dialect) -> (r: Result<(), SqlError>)
        ensures
            r is Ok <==> quotable(self.name@),
            r is Ok ==> final(buf)@ == old(buf)@ + create_schema_sql(*self),
            r matches Err(e) ==> e == SqlError::QuoteInIdentifier,
    {
        proof { reveal_strlit("CREATE SCHEMA "); reveal_strlit(" IF NOT EXISTS "); }
        buf.append("CREATE SCHEMA ");
        if self.if_not_exists {
            buf.append(" IF NOT EXISTS ");
        }
        let res = push_quoted(buf, self.name.as_str());
        assert(res is Ok ==> final(buf)@ =~= old(buf)@ + create_schema_sql(*self));
        res
    }

    pub fn to_sql(&self, dialect: Dialect) -> (r: Result<String, SqlError>)
        ensures
            r is Ok <==> quotable(self.name@),
            r matches Ok(s) ==> s@ == create_schema_sql(*self),
            r matches Err(e) ==> e == SqlError::QuoteInIdentifier,
    {
        let mut buf = String::new();
        match self.write_sql(&mut buf, dialect) {
            Ok(()) => Ok(buf),
            Err(e) => Err(e),
        }
    }
}

impl crate::to_sql::ToSql for CreateSchema {
    open spec fn sql(&self, dialect: Dialect) -> Seq<char> {
        create_schema_sql(*self)
    }

    open spec fn renders(&self, dialect: Dialect) -> bool {
        quotable(self.name@)
    }

    fn write_sql(&self, buf: &mut String, dialect: Dialect) -> (r: Result<(), SqlError>) {
        CreateSchema::write_sql(self, buf, dialect)
    }
}

} // verus!
